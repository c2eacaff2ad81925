//! The decisions of a seek: from which offsets the partitions are read, when
//! polling for records stops, and how a failed step is reported.

use vstd::prelude::*;
use crate::error::{kafka_error_display, kafka_error_text};
use crate::models::{bytes_of, is_record_message, KafkaMessage};

verus! {

/// Seconds that a seek polls for records at most.
pub const SEEK_DEADLINE_SECS: u64 = 5;

/// Milliseconds that one poll of a seek waits for a record.
pub const POLL_TIMEOUT_MS: u64 = 500;

/// Seconds that a metadata or offset request waits for the broker.
pub const BROKER_TIMEOUT_SECS: u64 = 10;

/// A partition offset, as the broker reports and the consumer is assigned it.
#[derive(Clone, Copy, Debug, PartialEq, Eq)]
pub enum SeekOffset {
    Beginning,
    End,
    Stored,
    Invalid,
    Offset(i64),
    OffsetTail(i64),
}

/// The offset from which a partition is read once the broker has resolved the
/// timestamp: the resolved offset where there is one, and otherwise the end of
/// the partition.
pub fn assignment_offset(resolved: &SeekOffset) -> (o: SeekOffset)
    ensures
        match *resolved {
            SeekOffset::Offset(n) => o == SeekOffset::Offset(n),
            _ => o == SeekOffset::End,
        },
{
    match resolved {
        SeekOffset::Offset(n) => SeekOffset::Offset(*n),
        _ => SeekOffset::End,
    }
}

/// The steps of a seek that can fail at the broker.
#[derive(Clone, Copy, Debug, PartialEq, Eq)]
pub enum SeekStage {
    CreateConsumer,
    FetchMetadata,
    AddPartition,
    ResolveOffsets,
    SetOffset,
    Assign,
}

/// The words with which a failed step is reported, before the error's text.
pub open spec fn stage_label(stage: SeekStage) -> Seq<char> {
    match stage {
        SeekStage::CreateConsumer => "Consumer creation failed: "@,
        SeekStage::FetchMetadata => "Metadata fetch failed: "@,
        SeekStage::AddPartition => "Failed to add partition: "@,
        SeekStage::ResolveOffsets => "offsets_for_times failed: "@,
        SeekStage::SetOffset => "Failed to set offset: "@,
        SeekStage::Assign => "Assign failed: "@,
    }
}

/// The report of a step that failed with the error `e`.
pub fn seek_failure(stage: SeekStage, e: &rdkafka::error::KafkaError) -> (m: String)
    ensures
        m@ == stage_label(stage) + kafka_error_display(*e),
        m@ == match stage {
            SeekStage::CreateConsumer => "Consumer creation failed: "@,
            SeekStage::FetchMetadata => "Metadata fetch failed: "@,
            SeekStage::AddPartition => "Failed to add partition: "@,
            SeekStage::ResolveOffsets => "offsets_for_times failed: "@,
            SeekStage::SetOffset => "Failed to set offset: "@,
            SeekStage::Assign => "Assign failed: "@,
        } + kafka_error_display(*e),
{
    let label = match stage {
        SeekStage::CreateConsumer => "Consumer creation failed: ",
        SeekStage::FetchMetadata => "Metadata fetch failed: ",
        SeekStage::AddPartition => "Failed to add partition: ",
        SeekStage::ResolveOffsets => "offsets_for_times failed: ",
        SeekStage::SetOffset => "Failed to set offset: ",
        SeekStage::Assign => "Assign failed: ",
    };
    let mut m = String::from_str(label);
    let detail = kafka_error_text(e);
    m.append(detail.as_str());
    m
}

/// The report of a seek whose topic the broker does not know.
pub fn topic_not_found() -> (m: String)
    ensures
        m@ == "Topic not found"@,
{
    String::from_str("Topic not found")
}

/// What one poll of the seek consumer gave.
#[derive(Debug)]
pub enum PollOutcome<'a> {
    /// A record, by its parts.
    Record {
        partition: i32,
        offset: i64,
        key: Option<&'a [u8]>,
        payload: Option<&'a [u8]>,
        timestamp: Option<i64>,
    },
    /// An error.
    Failed,
    /// Nothing within the poll's timeout.
    Empty,
}

/// The records that a seek of one topic has collected, each a message of that
/// topic, and never more than its limit.
pub struct SeekBatch {
    topic: String,
    messages: Vec<KafkaMessage>,
    limit: usize,
}

impl View for SeekBatch {
    type V = (Seq<char>, Seq<KafkaMessage>, nat);

    closed spec fn view(&self) -> (Seq<char>, Seq<KafkaMessage>, nat) {
        (self.topic@, self.messages@, self.limit as nat)
    }
}

impl SeekBatch {
    #[verifier::type_invariant]
    spec fn well_formed(self) -> bool {
        &&& self.messages@.len() <= self.limit
        &&& forall|i: int| 0 <= i < self.messages@.len() ==> (#[trigger] self.messages@[i]).topic@
            == self.topic@
    }

    /// The topic that the batch reads.
    pub open spec fn topic(&self) -> Seq<char> {
        self@.0
    }

    /// The records collected so far.
    pub open spec fn collected(&self) -> Seq<KafkaMessage> {
        self@.1
    }

    /// The most records that the batch takes.
    pub open spec fn limit(&self) -> nat {
        self@.2
    }

    /// An empty batch of `topic` that takes at most `limit` records.
    pub fn new(topic: &str, limit: usize) -> (b: SeekBatch)
        ensures
            b.topic() == topic@,
            b.collected() == Seq::<KafkaMessage>::empty(),
            b.limit() == limit,
    {
        SeekBatch { topic: String::from_str(topic), messages: Vec::new(), limit }
    }

    /// The number of records collected so far.
    pub fn len(&self) -> (n: usize)
        ensures
            n == self.collected().len(),
    {
        self.messages.len()
    }

    /// Whether to poll once more: while the batch is short of its limit and
    /// the deadline has not passed.
    pub fn wants_more(&self, before_deadline: bool) -> (more: bool)
        ensures
            more == (self.collected().len() < self.limit() && before_deadline),
    {
        self.messages.len() < self.limit && before_deadline
    }

    /// Takes what a poll gave, and says whether to go on: a record becomes a
    /// message of the batch's topic and polling goes on; an error stops it; a
    /// poll that gave nothing stops it once some record has come, and
    /// otherwise polling goes on.
    pub fn record(&mut self, outcome: PollOutcome) -> (go_on: bool)
        requires
            old(self).collected().len() < old(self).limit(),
        ensures
            final(self).topic() == old(self).topic(),
            final(self).limit() == old(self).limit(),
            final(self).collected().len() <= final(self).limit(),
            match outcome {
                PollOutcome::Record { partition, offset, key, payload, timestamp } => {
                    &&& final(self).collected().len() == old(self).collected().len() + 1
                    &&& final(self).collected().drop_last() == old(self).collected()
                    &&& is_record_message(
                        final(self).collected().last(),
                        old(self).topic(),
                        partition,
                        offset,
                        bytes_of(key),
                        bytes_of(payload),
                        timestamp,
                    )
                    &&& go_on
                },
                PollOutcome::Failed => final(self).collected() == old(self).collected() && !go_on,
                PollOutcome::Empty => final(self).collected() == old(self).collected() && go_on
                    == (old(self).collected().len() == 0),
            },
    {
        proof {
            use_type_invariant(&*self);
        }
        match outcome {
            PollOutcome::Record { partition, offset, key, payload, timestamp } => {
                let m = KafkaMessage::from_record(
                    self.topic.as_str(),
                    partition,
                    offset,
                    key,
                    payload,
                    timestamp,
                );
                let mut messages: Vec<KafkaMessage> = Vec::new();
                std::mem::swap(&mut messages, &mut self.messages);
                let ghost before = messages@;
                messages.push(m);
                assert(messages@.drop_last() =~= before);
                self.messages = messages;
                true
            },
            PollOutcome::Failed => false,
            PollOutcome::Empty => self.messages.len() == 0,
        }
    }

    /// The records collected, in the order they came: never more than the
    /// limit, and each a message of the batch's topic.
    pub fn into_messages(self) -> (v: Vec<KafkaMessage>)
        ensures
            v@ == self.collected(),
            v@.len() <= self.limit(),
            forall|i: int| 0 <= i < v@.len() ==> (#[trigger] v@[i]).topic@ == self.topic(),
    {
        proof {
            use_type_invariant(&self);
        }
        self.messages
    }
}

} // verus!
