//! The verified core of a Kafka topic dashboard: configuration and its
//! validation, the properties of the Kafka clients, the topic list, the
//! registry of live topic channels, and the decisions of seeks, topic
//! consumers and WebSocket sessions.

pub mod text;
pub mod order;
pub mod config;
pub mod kafka;
pub mod topics;
pub mod registry;
pub mod models;
pub mod error;
pub mod seek;
pub mod consumer;
pub mod session;
