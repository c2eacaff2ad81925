use kafka_dashboard::config::{
    parse_port, validate_brokers, validate_topic_name, AppConfig, Args, EnvVars, SecurityConfig,
};
use kafka_dashboard::error::DashboardError;
use kafka_dashboard::kafka::{admin_config, apply_security, apply_timeouts, seek_consumer_config, topic_consumer_config};
use kafka_dashboard::models::{default_max_messages, seek_limit, BrokerResponse, KafkaMessage};
use kafka_dashboard::registry::TopicChannels;
use kafka_dashboard::seek::{
    assignment_offset, seek_failure, topic_not_found, PollOutcome, SeekBatch, SeekOffset, SeekStage,
};
use kafka_dashboard::consumer::{consumer_continues, consumer_step, ConsumerAction, ConsumerEvent};
use kafka_dashboard::session::{continues_after, session_step, SessionAction, SessionEvent};
use kafka_dashboard::text::{
    decimal_text, has_char, is_whitespace, split_pieces, starts_with, text_less, trimmed,
};
use kafka_dashboard::topics::visible_topics;

fn args() -> Args {
    Args {
        brokers: "localhost:9094".into(),
        port: 3001,
        host: "127.0.0.1".into(),
        static_dir: "./frontend/dist".into(),
        security_protocol: Some("SSL".into()),
        sasl_mechanism: None,
        sasl_username: None,
        sasl_password: None,
    }
}

fn env(port: Option<&str>) -> EnvVars {
    EnvVars {
        kafka_brokers: Some("envhost:9092".into()),
        server_host: None,
        server_port: port.map(|p| p.to_string()),
        static_dir: Some("/srv/static".into()),
        consumer_group: Some("group-x".into()),
        security_protocol: None,
        sasl_mechanism: Some("PLAIN".into()),
        sasl_username: None,
        sasl_password: None,
    }
}

fn config_with(brokers: &str, port: u16, security: SecurityConfig) -> AppConfig {
    AppConfig {
        kafka_brokers: brokers.into(),
        server_host: "127.0.0.1".into(),
        server_port: port,
        static_dir: "./frontend/dist".into(),
        consumer_group: "test".into(),
        security,
    }
}

fn security(p: Option<&str>, m: Option<&str>, u: Option<&str>, pw: Option<&str>) -> SecurityConfig {
    SecurityConfig {
        security_protocol: p.map(String::from),
        sasl_mechanism: m.map(String::from),
        sasl_username: u.map(String::from),
        sasl_password: pw.map(String::from),
    }
}

#[test]
fn env_overrides_arguments() {
    let c = AppConfig::from_args_and_env(args(), env(Some("8081")));
    assert_eq!(c.kafka_brokers, "envhost:9092");
    assert_eq!(c.server_host, "127.0.0.1");
    assert_eq!(c.server_port, 8081);
    assert_eq!(c.static_dir, "/srv/static");
    assert_eq!(c.consumer_group, "group-x");
    assert_eq!(c.security.security_protocol.as_deref(), Some("SSL"));
    assert_eq!(c.security.sasl_mechanism.as_deref(), Some("PLAIN"));
}

#[test]
fn unparsable_env_port_keeps_argument() {
    let c = AppConfig::from_args_and_env(args(), env(Some("80x")));
    assert_eq!(c.server_port, 3001);
    let c = AppConfig::from_args_and_env(args(), env(Some("70000")));
    assert_eq!(c.server_port, 3001);
}

#[test]
fn port_parsing() {
    assert_eq!(parse_port("8080"), Some(8080));
    assert_eq!(parse_port("+80"), Some(80));
    assert_eq!(parse_port("0003001"), Some(3001));
    assert_eq!(parse_port("65535"), Some(65535));
    assert_eq!(parse_port("65536"), None);
    assert_eq!(parse_port("999999999999"), None);
    assert_eq!(parse_port(""), None);
    assert_eq!(parse_port("+"), None);
    assert_eq!(parse_port("-1"), None);
    assert_eq!(parse_port(" 80"), None);
    assert_eq!(parse_port("8a"), None);
    for p in ["8080", "+80", "0003001", "65535", "65536", "", "+", "-1", " 80", "8a"] {
        assert_eq!(parse_port(p), p.parse::<u16>().ok());
    }
}

#[test]
fn decimal_rendering() {
    assert_eq!(decimal_text(0), "0");
    assert_eq!(decimal_text(7), "7");
    assert_eq!(decimal_text(4096), "4096");
    assert_eq!(decimal_text(1234567890), "1234567890");
    assert_eq!(decimal_text(3001), 3001usize.to_string());
}

#[test]
fn text_helpers() {
    assert_eq!(trimmed("  a b \t\n"), "a b");
    assert_eq!(trimmed("\u{3000}x\u{a0}"), "x");
    assert_eq!(trimmed("   "), "");
    assert!(has_char("host:1", ':'));
    assert!(!has_char("host", ':'));
    assert!(starts_with("SASL_SSL", "SASL"));
    assert!(!starts_with("SSL", "SASL"));
    assert_eq!(split_pieces("a,b,,c", ','), vec!["a", "b", "", "c"]);
    assert_eq!(split_pieces("", ','), vec![""]);
    assert_eq!(split_pieces("a,", ','), vec!["a", ""]);
    assert!(text_less("a", "b"));
    assert!(text_less("a", "ab"));
    assert!(!text_less("b", "ab"));
    assert!(!text_less("a", "a"));
    assert!(text_less("Z", "a"));
}

#[test]
fn config_errors_are_exact() {
    let none = || security(None, None, None, None);
    assert_eq!(config_with("   ", 1, none()).validate(), Err("kafka_brokers must not be empty".to_string()));
    let long = "h".repeat(4097);
    assert_eq!(
        config_with(&long, 1, none()).validate(),
        Err("kafka_brokers too long (4097 chars, max 4096)".to_string())
    );
    assert_eq!(config_with("h:1", 0, none()).validate(), Err("server_port must not be 0".to_string()));
    assert_eq!(
        config_with("h:1", 1, security(Some("TLS"), None, None, None)).validate(),
        Err("invalid security_protocol 'TLS' \u{2014} must be one of: SASL_SSL, SASL_PLAINTEXT, SSL".to_string())
    );
    assert_eq!(
        config_with("h:1", 1, security(Some("SASL_PLAINTEXT"), None, None, None)).validate(),
        Err("sasl_mechanism is required when security_protocol is SASL_PLAINTEXT".to_string())
    );
    assert_eq!(
        config_with("h:1", 1, security(Some("SASL_SSL"), Some("PLAIN"), Some("u"), None)).validate(),
        Err("sasl_username and sasl_password are required when security_protocol is SASL_SSL".to_string())
    );
    assert_eq!(
        config_with("h:1", 1, security(Some("SSL"), Some("MD5"), None, None)).validate(),
        Err("invalid sasl_mechanism 'MD5' \u{2014} must be one of: PLAIN, SCRAM-SHA-256, SCRAM-SHA-512".to_string())
    );
    assert_eq!(config_with("h:1", 1, security(Some("SSL"), None, None, None)).validate(), Ok(()));
    assert_eq!(
        config_with("h:1", 1, security(None, Some("SCRAM-SHA-512"), None, None)).validate(),
        Ok(())
    );
}

#[test]
fn broker_list_errors() {
    assert_eq!(validate_brokers(""), Err("brokers must not be empty".to_string()));
    assert_eq!(
        validate_brokers("a:1,,b:2"),
        Err("empty broker address in comma-separated list".to_string())
    );
    assert_eq!(
        validate_brokers("a:1, "),
        Err("empty broker address in comma-separated list".to_string())
    );
    assert_eq!(
        validate_brokers(" a:1 , hostb "),
        Err("invalid broker address 'hostb' \u{2014} expected host:port format".to_string())
    );
    assert_eq!(validate_brokers(" a:1 , b:2 "), Ok(()));
    let long = format!("{}:1", "h".repeat(5000));
    assert_eq!(validate_brokers(&long), Err("brokers too long (5002 chars, max 4096)".to_string()));
    let wide = "\u{e9}:".repeat(1500);
    assert_eq!(validate_brokers(&wide), Err("brokers too long (4500 chars, max 4096)".to_string()));
}

#[test]
fn topic_name_errors() {
    assert_eq!(
        validate_topic_name(""),
        Err("topic name must be 1-249 characters (got 0)".to_string())
    );
    let long = "t".repeat(250);
    assert_eq!(
        validate_topic_name(&long),
        Err("topic name must be 1-249 characters (got 250)".to_string())
    );
    assert!(validate_topic_name(&"t".repeat(249)).is_ok());
    assert_eq!(
        validate_topic_name("a b"),
        Err("topic name 'a b' contains invalid characters \u{2014} only alphanumeric, '.', '_', '-' allowed".to_string())
    );
    assert!(validate_topic_name("caf\u{e9}").is_ok());
}

#[test]
fn security_properties_are_applied() {
    let mut c = rdkafka::ClientConfig::new();
    apply_security(&mut c, &security(Some("SASL_SSL"), Some("PLAIN"), None, Some("pw")));
    assert_eq!(c.get("security.protocol"), Some("SASL_SSL"));
    assert_eq!(c.get("sasl.mechanisms"), Some("PLAIN"));
    assert_eq!(c.get("sasl.username"), None);
    assert_eq!(c.get("sasl.password"), Some("pw"));
    apply_timeouts(&mut c);
    assert_eq!(c.get("socket.timeout.ms"), Some("10000"));
    assert_eq!(c.get("socket.connection.setup.timeout.ms"), Some("5000"));
    assert_eq!(c.get("request.timeout.ms"), Some("10000"));
    assert_eq!(c.get("metadata.max.age.ms"), Some("60000"));
}

#[test]
fn consumer_configurations() {
    let sec = security(Some("SSL"), None, None, None);
    let admin = admin_config("h:1", &sec);
    assert_eq!(admin.get("bootstrap.servers"), Some("h:1"));
    assert_eq!(admin.get("security.protocol"), Some("SSL"));
    assert_eq!(admin.get("group.id"), None);
    assert_eq!(admin.config_map().len(), 6);
    let topic = topic_consumer_config("h:1", "orders", "kafka-dashboard", &sec);
    assert_eq!(topic.get("group.id"), Some("kafka-dashboard-orders"));
    assert_eq!(topic.get("auto.offset.reset"), Some("latest"));
    assert_eq!(topic.get("enable.auto.commit"), Some("true"));
    assert_eq!(topic.get("request.timeout.ms"), Some("10000"));
    let seek = seek_consumer_config("h:1", &SecurityConfig::default());
    assert_eq!(seek.get("group.id"), Some("kafka-dashboard-seek"));
    assert_eq!(seek.get("enable.auto.commit"), Some("false"));
    assert_eq!(seek.get("security.protocol"), None);
}

#[test]
fn topics_are_filtered_and_sorted() {
    let names: Vec<String> = ["orders", "__consumer_offsets", "Zeta", "alpha", "_single", "orders"]
        .iter()
        .map(|s| s.to_string())
        .collect();
    let listed = visible_topics(names);
    assert_eq!(listed, vec!["Zeta", "_single", "alpha", "orders", "orders"]);
    assert!(visible_topics(vec![]).is_empty());
}

#[test]
fn channels_registry() {
    let mut ch: TopicChannels<u32> = TopicChannels::new();
    assert_eq!(ch.len(), 0);
    assert_eq!(ch.get("a"), None);
    ch.insert("a".into(), 1);
    ch.insert("b".into(), 2);
    assert_eq!(ch.get("a"), Some(&1));
    ch.insert("a".into(), 3);
    assert_eq!(ch.get("a"), Some(&3));
    assert_eq!(ch.get("b"), Some(&2));
    assert_eq!(ch.len(), 2);
    ch.clear();
    assert_eq!(ch.len(), 0);
    assert_eq!(ch.get("b"), None);
}

fn record(offset: i64) -> PollOutcome<'static> {
    PollOutcome::Record { partition: 0, offset, key: None, payload: Some(b"p"), timestamp: None }
}

#[test]
fn seek_decisions() {
    assert_eq!(seek_limit(None), 200);
    assert_eq!(seek_limit(Some(50)), 50);
    assert_eq!(seek_limit(Some(5000)), 1000);
    assert_eq!(default_max_messages(), None);
    assert!(matches!(assignment_offset(&SeekOffset::Offset(42)), SeekOffset::Offset(42)));
    assert!(matches!(assignment_offset(&SeekOffset::Invalid), SeekOffset::End));
    assert!(matches!(assignment_offset(&SeekOffset::Beginning), SeekOffset::End));

    let mut batch = SeekBatch::new("orders", 2);
    assert!(batch.wants_more(true));
    assert!(!batch.wants_more(false));
    assert!(batch.record(PollOutcome::Empty));
    assert!(batch.record(record(1)));
    assert!(!batch.record(PollOutcome::Empty));
    assert!(batch.record(record(2)));
    assert!(!batch.wants_more(true));
    let got = batch.into_messages();
    assert_eq!(got.iter().map(|m| m.offset).collect::<Vec<_>>(), vec![1, 2]);
    assert!(got.iter().all(|m| m.topic == "orders" && m.payload.as_deref() == Some("p")));

    let mut failing = SeekBatch::new("orders", 5);
    assert!(!failing.record(PollOutcome::Failed));
    assert_eq!(failing.len(), 0);
}

#[test]
fn seek_failures_are_reported() {
    let e = rdkafka::error::KafkaError::Canceled;
    assert_eq!(
        seek_failure(SeekStage::CreateConsumer, &e),
        format!("Consumer creation failed: {}", e)
    );
    assert_eq!(seek_failure(SeekStage::FetchMetadata, &e), format!("Metadata fetch failed: {}", e));
    assert_eq!(seek_failure(SeekStage::AddPartition, &e), format!("Failed to add partition: {}", e));
    assert_eq!(seek_failure(SeekStage::ResolveOffsets, &e), format!("offsets_for_times failed: {}", e));
    assert_eq!(seek_failure(SeekStage::SetOffset, &e), format!("Failed to set offset: {}", e));
    assert_eq!(seek_failure(SeekStage::Assign, &e), format!("Assign failed: {}", e));
    assert_eq!(topic_not_found(), "Topic not found");
}

#[test]
fn consumer_decisions() {
    assert!(matches!(consumer_step("t", ConsumerEvent::Shutdown), ConsumerAction::Stop));
    assert!(matches!(consumer_step("t", ConsumerEvent::ReceiveFailed), ConsumerAction::PauseThenRetry));
    let forwarded = consumer_step(
        "orders",
        ConsumerEvent::Record { partition: 2, offset: 7, key: Some(b"k"), payload: None, timestamp: Some(9) },
    );
    match &forwarded {
        ConsumerAction::Forward(m) => {
            assert_eq!(m.topic, "orders");
            assert_eq!(m.partition, 2);
            assert_eq!(m.offset, 7);
            assert_eq!(m.key.as_deref(), Some("k"));
            assert!(m.payload.is_none());
            assert_eq!(m.timestamp, Some(9));
        }
        _ => panic!("a record is forwarded"),
    }
    assert!(consumer_continues(&forwarded, true, false));
    assert!(consumer_continues(&forwarded, false, true));
    assert!(!consumer_continues(&forwarded, false, false));
    assert!(!consumer_continues(&ConsumerAction::Stop, true, true));
    assert!(!consumer_continues(&ConsumerAction::PauseThenRetry, false, false));
    assert!(consumer_continues(&ConsumerAction::PauseThenRetry, false, true));
    assert!(matches!(consumer_step("t", ConsumerEvent::CheckDue), ConsumerAction::CheckReceivers));
    assert!(!consumer_continues(&ConsumerAction::CheckReceivers, false, false));
    assert!(consumer_continues(&ConsumerAction::CheckReceivers, true, false));
}

#[test]
fn records_become_messages() {
    let m = KafkaMessage::from_record("orders", 3, 42, Some(b"key-1"), Some(&[0x68, 0xff, 0x69]), Some(17));
    assert_eq!(m.topic, "orders");
    assert_eq!(m.partition, 3);
    assert_eq!(m.offset, 42);
    assert_eq!(m.key.as_deref(), Some("key-1"));
    assert_eq!(m.payload.as_deref(), Some("h\u{fffd}i"));
    assert_eq!(m.timestamp, Some(17));
    let n = KafkaMessage::from_record("logs", 1, 0, None, None, None);
    assert!(n.key.is_none() && n.payload.is_none() && n.timestamp.is_none());
}

#[test]
fn broker_response_reports_auth() {
    let r = BrokerResponse::new("h:1".into(), &SecurityConfig::default());
    assert_eq!(r.brokers, "h:1");
    assert!(!r.auth_configured);
    let r = BrokerResponse::new("h:1".into(), &security(None, None, Some("u"), None));
    assert!(r.auth_configured);
}

#[test]
fn error_statuses_and_messages() {
    assert_eq!(DashboardError::TopicNotFound("x".into()).status_code(), 404);
    assert_eq!(DashboardError::Config("x".into()).status_code(), 400);
    assert_eq!(DashboardError::Validation("x".into()).status_code(), 400);
    let json_err = serde_json::from_str::<u32>("nope").unwrap_err();
    let e = DashboardError::Serialization(json_err);
    assert_eq!(e.status_code(), 500);
    assert!(e.message().starts_with("Serialization error: "));
    let k = DashboardError::Kafka(rdkafka::error::KafkaError::Canceled);
    assert_eq!(k.status_code(), 500);
    assert_eq!(k.message(), format!("Kafka error: {}", rdkafka::error::KafkaError::Canceled));
    let json_err = serde_json::from_str::<u32>("nope").unwrap_err();
    let expected = format!("Serialization error: {}", json_err);
    assert_eq!(DashboardError::Serialization(json_err).message(), expected);
    assert_eq!(DashboardError::TopicNotFound("t".into()).message(), "Topic not found: t");
    assert_eq!(DashboardError::Validation("v".into()).message(), "Validation error: v");
}

#[test]
fn session_decisions() {
    assert!(matches!(session_step(SessionEvent::Record(Some("{}".into()))), SessionAction::SendText(t) if t == "{}"));
    assert!(matches!(session_step(SessionEvent::Record(None)), SessionAction::Continue));
    assert!(matches!(session_step(SessionEvent::Lagged(3)), SessionAction::WarnLagged(3)));
    assert!(matches!(session_step(SessionEvent::ChannelClosed), SessionAction::End));
    assert!(matches!(session_step(SessionEvent::Ping(vec![1])), SessionAction::SendPong(b) if b == vec![1]));
    assert!(matches!(session_step(SessionEvent::Pong), SessionAction::Continue));
    assert!(matches!(session_step(SessionEvent::Close), SessionAction::CloseAndEnd));
    assert!(matches!(session_step(SessionEvent::Other), SessionAction::Continue));
    assert!(matches!(session_step(SessionEvent::Heartbeat), SessionAction::SendPing));
    assert!(continues_after(&SessionAction::SendPing, true));
    assert!(!continues_after(&SessionAction::SendPing, false));
    assert!(!continues_after(&SessionAction::CloseAndEnd, true));
    assert!(continues_after(&SessionAction::WarnLagged(1), true));
}

#[test]
fn printed_ports_read_back() {
    for p in [0u16, 1, 9, 10, 80, 3001, 8080, 65535] {
        let text = decimal_text(p as usize);
        assert_eq!(parse_port(&text), Some(p));
    }
}

#[test]
fn errors_convert_from_their_causes() {
    let e: DashboardError = rdkafka::error::KafkaError::Canceled.into();
    assert!(matches!(e, DashboardError::Kafka(rdkafka::error::KafkaError::Canceled)));
    let j: DashboardError = serde_json::from_str::<u8>("x").unwrap_err().into();
    assert!(matches!(j, DashboardError::Serialization(_)));
}

#[test]
fn accepted_sasl_configuration_has_credentials() {
    let ok = config_with(
        "h:1",
        1,
        security(Some("SASL_PLAINTEXT"), Some("SCRAM-SHA-256"), Some("u"), Some("p")),
    );
    assert!(ok.validate().is_ok());
    let missing = config_with("h:1", 1, security(Some("SASL_PLAINTEXT"), Some("PLAIN"), None, Some("p")));
    assert!(missing.validate().is_err());
}


#[test]
fn listed_topics_follow_string_order() {
    let raw = ["z", "\u{e9}t\u{e9}", "\u{ffff}", "\u{10000}", "A", "a\u{300}", "ab", "a"];
    let names: Vec<String> = raw.iter().map(|s| s.to_string()).collect();
    let mut expected = names.clone();
    expected.sort();
    assert_eq!(visible_topics(names), expected);
}

#[test]
fn whitespace_matches_std() {
    for code in 0u32..=0x10ffff {
        if let Some(c) = char::from_u32(code) {
            assert_eq!(is_whitespace(c), c.is_whitespace(), "U+{:04X}", code);
        }
    }
}

#[test]
fn ascii_alphanumerics() {
    for b in 0u8..=0x7f {
        let c = b as char;
        let allowed = c.is_ascii_alphanumeric() || c == '.' || c == '_' || c == '-';
        assert_eq!(validate_topic_name(&c.to_string()).is_ok(), allowed, "{:?}", c);
    }
}

#[test]
fn joined_broker_lists() {
    let cases = ["a:1", "b:2", " c:3 ", "nohost", "", "x:1,y:2", "x:1,"];
    for a in cases {
        for b in cases {
            let joined = format!("{},{}", a, b);
            let expected = validate_brokers(a).is_ok()
                && validate_brokers(b).is_ok()
                && a.len() + b.len() + 1 <= 4096;
            assert_eq!(validate_brokers(&joined).is_ok(), expected, "{:?}", joined);
        }
    }
    let half = format!("{}:1", "h".repeat(2046));
    assert!(validate_brokers(&half).is_ok());
    assert!(validate_brokers(&format!("{},{}", half, half)).is_err());
}

#[test]
fn one_channel_per_topic() {
    let mut ch: TopicChannels<u32> = TopicChannels::new();
    assert!(ch.get_or_register("orders".into(), 1));
    assert!(!ch.get_or_register("orders".into(), 2));
    assert_eq!(ch.get("orders"), Some(&1));
    assert!(ch.get_or_register("logs".into(), 3));
    assert_eq!(ch.len(), 2);
}
