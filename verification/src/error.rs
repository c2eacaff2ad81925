//! The dashboard's errors, their messages and the HTTP status each maps to.

use vstd::prelude::*;
use vstd::std_specs::convert::FromSpecImpl;

verus! {

#[verifier::external_type_specification]
#[verifier::external_body]
pub struct ExKafkaError(rdkafka::error::KafkaError);

#[verifier::external_type_specification]
#[verifier::external_body]
pub struct ExJsonError(serde_json::Error);

/// An error of the dashboard.
#[derive(Debug)]
pub enum DashboardError {
    Kafka(rdkafka::error::KafkaError),
    Serialization(serde_json::Error),
    Config(String),
    TopicNotFound(String),
    Validation(String),
}

impl From<rdkafka::error::KafkaError> for DashboardError {
    fn from(e: rdkafka::error::KafkaError) -> (r: DashboardError) {
        DashboardError::Kafka(e)
    }
}

impl FromSpecImpl<rdkafka::error::KafkaError> for DashboardError {
    open spec fn obeys_from_spec() -> bool {
        true
    }

    open spec fn from_spec(e: rdkafka::error::KafkaError) -> DashboardError {
        DashboardError::Kafka(e)
    }
}

impl From<serde_json::Error> for DashboardError {
    fn from(e: serde_json::Error) -> (r: DashboardError) {
        DashboardError::Serialization(e)
    }
}

impl FromSpecImpl<serde_json::Error> for DashboardError {
    open spec fn obeys_from_spec() -> bool {
        true
    }

    open spec fn from_spec(e: serde_json::Error) -> DashboardError {
        DashboardError::Serialization(e)
    }
}

/// The text that the `Display` of `rdkafka::error::KafkaError` writes for `e`.
pub uninterp spec fn kafka_error_display(e: rdkafka::error::KafkaError) -> Seq<char>;

/// Calls the `Display` of `rdkafka::error::KafkaError`. The text is a
/// function of the error (its kind, code and native message), named
/// `kafka_error_display`; what it says for each error is not stated here.
#[verifier::external_body]
pub(crate) fn kafka_error_text(e: &rdkafka::error::KafkaError) -> (t: String)
    ensures
        t@ == kafka_error_display(*e),
{
    e.to_string()
}

/// Calls the `Display` of `serde_json::Error`. For an I/O error the text comes
/// from the platform's error strings or from a boxed error of any kind, so it
/// is not fixed by the error value, and nothing is stated of it.
#[verifier::external_body]
fn json_error_text(e: &serde_json::Error) -> (t: String) {
    e.to_string()
}

/// HTTP 400 Bad Request.
pub const STATUS_BAD_REQUEST: u16 = 400;

/// HTTP 404 Not Found.
pub const STATUS_NOT_FOUND: u16 = 404;

/// HTTP 500 Internal Server Error.
pub const STATUS_INTERNAL_ERROR: u16 = 500;

impl DashboardError {
    /// The error's message: a label for its kind, a colon and the detail.
    pub fn message(&self) -> (m: String)
        ensures
            match self {
                DashboardError::Kafka(e) => m@ == "Kafka error: "@ + kafka_error_display(*e),
                DashboardError::Serialization(_) => exists|d: Seq<char>|
                    m@ == "Serialization error: "@ + d,
                DashboardError::Config(s) => m@ == "Configuration error: "@ + s@,
                DashboardError::TopicNotFound(s) => m@ == "Topic not found: "@ + s@,
                DashboardError::Validation(s) => m@ == "Validation error: "@ + s@,
            },
    {
        let (label, detail) = match self {
            DashboardError::Kafka(e) => ("Kafka error: ", kafka_error_text(e)),
            DashboardError::Serialization(e) => ("Serialization error: ", json_error_text(e)),
            DashboardError::Config(s) => ("Configuration error: ", s.clone()),
            DashboardError::TopicNotFound(s) => ("Topic not found: ", s.clone()),
            DashboardError::Validation(s) => ("Validation error: ", s.clone()),
        };
        let mut m = String::from_str(label);
        m.append(detail.as_str());
        assert(m@ == label@ + detail@);
        m
    }

    /// The HTTP status with which the error is answered: not found for a
    /// missing topic, bad request for configuration and validation errors,
    /// and an internal error otherwise.
    pub fn status_code(&self) -> (code: u16)
        ensures
            code == match self {
                DashboardError::TopicNotFound(_) => STATUS_NOT_FOUND,
                DashboardError::Config(_) | DashboardError::Validation(_) => STATUS_BAD_REQUEST,
                _ => STATUS_INTERNAL_ERROR,
            },
    {
        match self {
            DashboardError::TopicNotFound(_) => STATUS_NOT_FOUND,
            DashboardError::Config(_) | DashboardError::Validation(_) => STATUS_BAD_REQUEST,
            _ => STATUS_INTERNAL_ERROR,
        }
    }
}

} // verus!
