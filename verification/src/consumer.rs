//! The decisions of a topic's live consumer, which forwards the topic's
//! records to the WebSocket sessions that follow it.

use vstd::prelude::*;
use crate::models::{bytes_of, is_record_message, KafkaMessage};

verus! {

/// Seconds that a consumer waits after a failed receive before it tries again.
pub const RECEIVE_RETRY_SECS: u64 = 1;

/// Seconds between a consumer's checks for receivers, so that an abandoned
/// consumer stops without waiting for a record.
pub const RECEIVER_CHECK_SECS: u64 = 5;

/// What happened to a topic's consumer.
#[derive(Debug)]
pub enum ConsumerEvent<'a> {
    /// The dashboard is shutting down.
    Shutdown,
    /// A record came, by its parts.
    Record {
        partition: i32,
        offset: i64,
        key: Option<&'a [u8]>,
        payload: Option<&'a [u8]>,
        timestamp: Option<i64>,
    },
    /// Receiving failed.
    ReceiveFailed,
    /// The interval between receiver checks elapsed.
    CheckDue,
}

/// What the consumer does next.
#[derive(Clone, Debug)]
pub enum ConsumerAction {
    /// Stop consuming.
    Stop,
    /// Send this message to the topic's receivers.
    Forward(KafkaMessage),
    /// Wait a moment, then receive again.
    PauseThenRetry,
    /// See whether the consumer is still followed.
    CheckReceivers,
}

/// What a consumer of `topic` does on an event: it stops on shutdown, turns a
/// record into a message of its topic and forwards it, pauses after a failed
/// receive, and checks for receivers when the check is due.
pub fn consumer_step(topic: &str, event: ConsumerEvent) -> (action: ConsumerAction)
    ensures
        match event {
            ConsumerEvent::Shutdown => action is Stop,
            ConsumerEvent::ReceiveFailed => action is PauseThenRetry,
            ConsumerEvent::CheckDue => action is CheckReceivers,
            ConsumerEvent::Record { partition, offset, key, payload, timestamp } => match action {
                ConsumerAction::Forward(m) => is_record_message(
                    m,
                    topic@,
                    partition,
                    offset,
                    bytes_of(key),
                    bytes_of(payload),
                    timestamp,
                ),
                _ => false,
            },
        },
{
    match event {
        ConsumerEvent::Shutdown => ConsumerAction::Stop,
        ConsumerEvent::ReceiveFailed => ConsumerAction::PauseThenRetry,
        ConsumerEvent::CheckDue => ConsumerAction::CheckReceivers,
        ConsumerEvent::Record { partition, offset, key, payload, timestamp } => {
            ConsumerAction::Forward(
                KafkaMessage::from_record(topic, partition, offset, key, payload, timestamp),
            )
        },
    }
}

/// Whether a consumer goes on after an action, given whether some receiver
/// is left (for a forwarded message: whether it reached one) and whether the
/// topic's channel is still registered: it stops on request, and once no
/// receiver is left of a channel that is no longer registered (after the
/// brokers changed or the consumers were cleared). While registered it waits
/// for new receivers.
pub open spec fn consumer_goes_on(action: ConsumerAction, receivers_left: bool, registered: bool) -> bool {
    match action {
        ConsumerAction::Stop => false,
        _ => receivers_left || registered,
    }
}

/// Whether the consumer goes on after an action was carried out.
pub fn consumer_continues(action: &ConsumerAction, receivers_left: bool, registered: bool) -> (go_on: bool)
    ensures
        go_on == consumer_goes_on(*action, receivers_left, registered),
        *action is Stop ==> !go_on,
        !(*action is Stop) ==> (go_on <==> receivers_left || registered),
{
    match action {
        ConsumerAction::Stop => false,
        _ => receivers_left || registered,
    }
}

/// After a stop the consumer never goes on, whether or not a receiver is left
/// and whether or not its channel is registered; after any other action it
/// goes on exactly while a receiver is left or its channel is registered.
pub proof fn lemma_stop_is_final(action: ConsumerAction, receivers_left: bool, registered: bool)
    ensures
        action is Stop ==> !consumer_goes_on(action, receivers_left, registered),
        !(action is Stop) ==> (consumer_goes_on(action, receivers_left, registered) <==> (
        receivers_left || registered)),
{
}

/// A consumer whose channel is no longer registered and has no receiver left
/// stops after whatever it does next, a record or not: after the next
/// receiver check at the latest.
pub proof fn lemma_abandoned_consumer_stops(action: ConsumerAction)
    ensures
        !consumer_goes_on(action, false, false),
{
}

/// A consumer goes on after everything but a stop while some receiver is left
/// or its channel is registered.
pub proof fn lemma_followed_consumer_goes_on(action: ConsumerAction, receivers_left: bool, registered: bool)
    requires
        !(action is Stop),
        receivers_left || registered,
    ensures
        consumer_goes_on(action, receivers_left, registered),
{
}

} // verus!
