//! The values that the dashboard's API and WebSocket streams carry.

use vstd::prelude::*;
use vstd::utf8::{decode_utf8, valid_utf8};
use crate::config::SecurityConfig;

verus! {

/// One record of a topic, as the dashboard shows it.
#[derive(Clone, Debug)]
pub struct KafkaMessage {
    pub topic: String,
    pub partition: i32,
    pub offset: i64,
    pub key: Option<String>,
    pub payload: Option<String>,
    pub timestamp: Option<i64>,
}

/// The answer to a request for the topic list.
#[derive(Clone, Debug)]
pub struct TopicsResponse {
    pub topics: Vec<String>,
}

/// A request to change the brokers.
#[derive(Clone, Debug)]
pub struct BrokerRequest {
    pub brokers: String,
}

/// A request for the records of a topic from a point in time on.
#[derive(Clone, Debug)]
pub struct SeekRequest {
    pub timestamp_ms: i64,
    pub max_messages: Option<usize>,
}

/// The answer to a broker query or change.
#[derive(Clone, Debug)]
pub struct BrokerResponse {
    pub brokers: String,
    pub auth_configured: bool,
}

/// The number of records that a seek returns when the request names none.
pub const DEFAULT_SEEK_MESSAGES: usize = 200;

/// The most records that one seek returns.
pub const MAX_SEEK_MESSAGES: usize = 1000;

/// The limit that a seek request takes when it gives none: no limit of its own.
pub fn default_max_messages() -> (r: Option<usize>)
    ensures
        r is None,
{
    None
}

/// The number of records that a seek collects at most: the requested number,
/// or 200 where none is requested, and never more than 1000.
pub open spec fn seek_limit_of(requested: Option<usize>) -> nat {
    let wanted = match requested {
        Some(n) => n as nat,
        None => DEFAULT_SEEK_MESSAGES as nat,
    };
    if wanted < MAX_SEEK_MESSAGES {
        wanted
    } else {
        MAX_SEEK_MESSAGES as nat
    }
}

/// A seek collects the requested number of records where that is at most
/// 1000, and otherwise 1000: never more than the request, never more than
/// 1000; without a request it collects 200.
pub proof fn lemma_seek_limit_bounded(requested: Option<usize>)
    ensures
        seek_limit_of(requested) <= 1000,
        requested is None ==> seek_limit_of(requested) == 200,
        requested is Some ==> seek_limit_of(requested) <= requested->0,
        requested is Some && requested->0 <= 1000 ==> seek_limit_of(requested) == requested->0,
        requested is Some && requested->0 > 1000 ==> seek_limit_of(requested) == 1000,
{
}

/// The number of records that a seek collects at most.
pub fn seek_limit(requested: Option<usize>) -> (n: usize)
    ensures
        n == seek_limit_of(requested),
        n == (match requested {
            Some(k) => if k <= 1000 { k } else { 1000 },
            None => 200,
        }),
{
    let wanted = match requested {
        Some(n) => n,
        None => DEFAULT_SEEK_MESSAGES,
    };
    if wanted < MAX_SEEK_MESSAGES {
        wanted
    } else {
        MAX_SEEK_MESSAGES
    }
}

/// What `String::from_utf8_lossy` makes of `bytes`.
pub uninterp spec fn utf8_lossy(bytes: Seq<u8>) -> Seq<char>;

/// Calls `String::from_utf8_lossy` and takes the text it gives. Its result is
/// a function of the bytes, named `utf8_lossy`; as its documentation says, it
/// is the decoded text where the bytes are valid UTF-8. How invalid sequences
/// are replaced is not stated here.
#[verifier::external_body]
fn lossy_text(bytes: &[u8]) -> (t: String)
    ensures
        t@ == utf8_lossy(bytes@),
        valid_utf8(bytes@) ==> t@ == decode_utf8(bytes@),
{
    String::from_utf8_lossy(bytes).into_owned()
}

/// The bytes of an optional byte string.
pub open spec fn bytes_of(bytes: Option<&[u8]>) -> Option<Seq<u8>> {
    match bytes {
        Some(b) => Some(b@),
        None => None,
    }
}

/// Whether `text` is what a message shows for the optional bytes `bytes`:
/// nothing for nothing, and otherwise the bytes read as UTF-8 with invalid
/// sequences replaced.
pub open spec fn shows_bytes(text: Option<String>, bytes: Option<Seq<u8>>) -> bool {
    match bytes {
        Some(b) => text is Some && text->0@ == utf8_lossy(b) && (valid_utf8(b) ==> text->0@
            == decode_utf8(b)),
        None => text is None,
    }
}

/// Whether `m` is the message for the record with these parts, read from
/// `topic`.
pub open spec fn is_record_message(
    m: KafkaMessage,
    topic: Seq<char>,
    partition: i32,
    offset: i64,
    key: Option<Seq<u8>>,
    payload: Option<Seq<u8>>,
    timestamp: Option<i64>,
) -> bool {
    &&& m.topic@ == topic
    &&& m.partition == partition
    &&& m.offset == offset
    &&& m.timestamp == timestamp
    &&& shows_bytes(m.key, key)
    &&& shows_bytes(m.payload, payload)
}

fn lossy_option(bytes: Option<&[u8]>) -> (t: Option<String>)
    ensures
        shows_bytes(t, bytes_of(bytes)),
{
    match bytes {
        Some(b) => Some(lossy_text(b)),
        None => None,
    }
}

impl KafkaMessage {
    /// The message for a record read from `topic`: key and payload as text,
    /// with invalid UTF-8 replaced, and the timestamp in milliseconds where
    /// the record has one.
    pub fn from_record(
        topic: &str,
        partition: i32,
        offset: i64,
        key: Option<&[u8]>,
        payload: Option<&[u8]>,
        timestamp: Option<i64>,
    ) -> (m: KafkaMessage)
        ensures
            is_record_message(
                m,
                topic@,
                partition,
                offset,
                bytes_of(key),
                bytes_of(payload),
                timestamp,
            ),
    {
        KafkaMessage {
            topic: String::from_str(topic),
            partition,
            offset,
            key: lossy_option(key),
            payload: lossy_option(payload),
            timestamp,
        }
    }
}

impl BrokerResponse {
    /// The answer that names the brokers in use and whether authentication is
    /// configured.
    pub fn new(brokers: String, security: &SecurityConfig) -> (r: BrokerResponse)
        ensures
            r.brokers == brokers,
            r.auth_configured == security.configured(),
            r.auth_configured <==> (security.security_protocol is Some || security.sasl_mechanism
                is Some || security.sasl_username is Some || security.sasl_password is Some),
    {
        BrokerResponse { brokers, auth_configured: security.is_configured() }
    }
}

} // verus!
