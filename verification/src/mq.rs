//! Notification broker: serializes all outbound pub/sub notifications
//! through one logical writer and re-publishes the latest sequence to every
//! newly accepted subscriber connection, so a late joiner is never left
//! waiting for the next event.
//!
//! Producers never touch the transport. They enqueue [`BrokerInput`]s onto a
//! FIFO queue consumed by exactly one worker, which feeds [`Broker::step`]
//! and writes the returned frames; that single ownership rules out
//! interleaved or partial frames on the wire.

use vstd::prelude::*;

verus! {

/// An arbitrary message forwarded verbatim on a caller-supplied topic.
#[derive(Debug)]
pub struct Message {
    pub topic: String,
    pub data: Vec<u8>,
}

/// Work submitted to the broker by producers.
#[derive(Debug)]
pub enum PublishMessage {
    /// A new latest sequence to record and publish.
    Sequence(i64),
    /// A message to forward unmodified.
    Forward(Message),
}

/// A two-part wire frame: the topic, then the binary payload.
#[derive(Debug)]
pub struct Frame {
    pub topic: String,
    pub payload: Vec<u8>,
}

/// Inputs consumed by the broker's single worker, in queue order.
#[derive(Debug)]
pub enum BrokerInput {
    /// Record a new latest sequence. Emits nothing by itself, so a burst of
    /// rapid appends collapses to fewer wire frames.
    SetLatestSequence(i64),
    /// Publish the current latest sequence on the `sequence` topic.
    PublishLatest,
    /// Forward an arbitrary message verbatim.
    Forward(Message),
    /// A subscriber connection was accepted: re-publish the latest sequence
    /// so the new subscriber need not wait for the next event.
    ConnectionAccepted,
}

/// Lifecycle events observed on the transport's connection monitor.
#[derive(Debug)]
pub enum SocketLifecycle {
    Accepted,
    Closed,
    Other,
}

/// The MessagePack encoding of a 64-bit integer.
pub uninterp spec fn msgpack_of(n: int) -> Seq<u8>;

/// Relies on rmp_serde::to_vec: the MessagePack encoding of an integer is a
/// function of its value alone, and encoding an integer into a byte vector
/// does not fail (the writer's only error is a failed memory reservation,
/// which verified code does not model).
#[verifier::external_body]
fn encode_sequence(n: i64) -> (r: Option<Vec<u8>>)
    ensures
        r is Some,
        r matches Some(b) ==> b@ == msgpack_of(n as int),
{
    match rmp_serde::to_vec(&n) {
        Ok(b) => Some(b),
        Err(_) => None,
    }
}

/// Builds the `sequence`-topic frame around an encoded sequence number, or
/// drops the notification when the encoder yielded nothing: a failed
/// notification never propagates, since the store write it announces has
/// already committed.
pub fn sequence_frame(encoded: Option<Vec<u8>>) -> (r: Option<Frame>)
    ensures
        (match encoded {
            Some(b) => r matches Some(f) && f.topic@ == "sequence"@ && f.payload == b,
            None => r is None,
        }),
{
    match encoded {
        Some(b) => Some(Frame { topic: "sequence".to_owned(), payload: b }),
        None => None,
    }
}

/// What publishing the latest sequence emits: exactly the two-part
/// `sequence` frame carrying the MessagePack encoding of `latest`.
pub open spec fn is_sequence_frame(latest: int, r: Option<Frame>) -> bool {
    r matches Some(f) && f.topic@ == "sequence"@ && f.payload@ == msgpack_of(latest)
}

/// Maps a connection-lifecycle event to broker work: an accepted connection
/// triggers a re-publish of the latest sequence; a close is observed for
/// nothing but logging, and anything else is ignored.
pub fn lifecycle_input(ev: &SocketLifecycle) -> (r: Option<BrokerInput>)
    ensures
        (ev is Accepted) ==> r == Some(BrokerInput::ConnectionAccepted),
        !(ev is Accepted) ==> r is None,
{
    match ev {
        SocketLifecycle::Accepted => Some(BrokerInput::ConnectionAccepted),
        _ => None,
    }
}

/// The ordered broker inputs one producer message expands to. An append's
/// new sequence is recorded and then published as two adjacent inputs;
/// because the queue is FIFO and single-consumer, the emitted frame always
/// reflects the sequence of exactly that append, never a stale or future
/// value.
pub fn inputs_of(m: PublishMessage) -> (r: Vec<BrokerInput>)
    ensures
        (match m {
            PublishMessage::Sequence(n) => r@ == seq![
                BrokerInput::SetLatestSequence(n),
                BrokerInput::PublishLatest,
            ],
            PublishMessage::Forward(msg) => r@ == seq![BrokerInput::Forward(msg)],
        }),
{
    let mut v: Vec<BrokerInput> = Vec::new();
    match m {
        PublishMessage::Sequence(n) => {
            v.push(BrokerInput::SetLatestSequence(n));
            v.push(BrokerInput::PublishLatest);
            proof {
                assert(v@ =~= seq![
                    BrokerInput::SetLatestSequence(n),
                    BrokerInput::PublishLatest,
                ]);
            }
        },
        PublishMessage::Forward(msg) => {
            v.push(BrokerInput::Forward(msg));
            proof {
                assert(v@ =~= seq![BrokerInput::Forward(msg)]);
            }
        },
    }
    v
}

/// The notification broker's state: the single most recent sequence value,
/// owned together with the outbound transport by exactly one worker, so it
/// needs no further synchronization.
pub struct Broker {
    latest: i64,
}

impl Broker {
    /// The latest sequence value the broker would publish.
    pub closed spec fn latest_seq(&self) -> int {
        self.latest as int
    }

    /// A broker seeded with the log's current sequence, so a subscriber
    /// that connects before any append still receives the true latest
    /// value.
    pub fn new(initial: i64) -> (r: Self)
        ensures
            r.latest_seq() == initial as int,
    {
        Broker { latest: initial }
    }

    /// The current latest-sequence value.
    pub fn latest(&self) -> (r: i64)
        ensures
            r as int == self.latest_seq(),
    {
        self.latest
    }

    /// Publishes the current latest sequence: always emits the `sequence`
    /// frame, since integer encoding does not fail.
    fn publish_latest(&self) -> (r: Option<Frame>)
        ensures
            is_sequence_frame(self.latest_seq(), r),
    {
        sequence_frame(encode_sequence(self.latest))
    }

    /// Consumes one input and returns the frame to write to the transport,
    /// if that input emits one. This is the whole decision logic of the
    /// broker's worker; the caller performs the write.
    pub fn step(&mut self, input: BrokerInput) -> (r: Option<Frame>)
        ensures
            (match input {
                BrokerInput::SetLatestSequence(n) => final(self).latest_seq() == n as int
                    && r is None,
                BrokerInput::PublishLatest => final(self).latest_seq() == old(self).latest_seq()
                    && is_sequence_frame(old(self).latest_seq(), r),
                BrokerInput::Forward(m) => final(self).latest_seq() == old(self).latest_seq() && (
                r matches Some(f) && f.topic == m.topic && f.payload == m.data),
                BrokerInput::ConnectionAccepted => final(self).latest_seq() == old(
                    self,
                ).latest_seq() && is_sequence_frame(old(self).latest_seq(), r),
            }),
    {
        match input {
            BrokerInput::SetLatestSequence(n) => {
                self.latest = n;
                None
            },
            BrokerInput::PublishLatest => self.publish_latest(),
            BrokerInput::Forward(m) => Some(Frame { topic: m.topic, payload: m.data }),
            BrokerInput::ConnectionAccepted => self.publish_latest(),
        }
    }
}

} // verus!
