//! Config validation, input validation and error handling, without a live
//! Kafka cluster.

use kafka_dashboard::config::{AppConfig, SecurityConfig};
use kafka_dashboard::error::DashboardError;

#[test]
fn test_config_validation_valid() {
    let config = AppConfig {
        kafka_brokers: "localhost:9094".into(),
        server_host: "127.0.0.1".into(),
        server_port: 3001,
        static_dir: "./frontend/dist".into(),
        consumer_group: "test-group".into(),
        security: SecurityConfig::default(),
    };
    assert!(config.validate().is_ok());
}

#[test]
fn test_config_validation_empty_brokers() {
    let config = AppConfig {
        kafka_brokers: "".into(),
        server_host: "127.0.0.1".into(),
        server_port: 3001,
        static_dir: "./frontend/dist".into(),
        consumer_group: "test-group".into(),
        security: SecurityConfig::default(),
    };
    let err = config.validate().unwrap_err();
    assert!(err.contains("must not be empty"));
}

#[test]
fn test_config_validation_zero_port() {
    let config = AppConfig {
        kafka_brokers: "localhost:9094".into(),
        server_host: "127.0.0.1".into(),
        server_port: 0,
        static_dir: "./frontend/dist".into(),
        consumer_group: "test-group".into(),
        security: SecurityConfig::default(),
    };
    let err = config.validate().unwrap_err();
    assert!(err.contains("must not be 0"));
}

#[test]
fn test_config_validation_sasl_without_credentials() {
    let config = AppConfig {
        kafka_brokers: "localhost:9094".into(),
        server_host: "127.0.0.1".into(),
        server_port: 3001,
        static_dir: "./frontend/dist".into(),
        consumer_group: "test-group".into(),
        security: SecurityConfig {
            security_protocol: Some("SASL_SSL".into()),
            sasl_mechanism: None,
            sasl_username: None,
            sasl_password: None,
        },
    };
    let err = config.validate().unwrap_err();
    assert!(err.contains("sasl_mechanism is required"));
}

#[test]
fn test_config_validation_invalid_protocol() {
    let config = AppConfig {
        kafka_brokers: "localhost:9094".into(),
        server_host: "127.0.0.1".into(),
        server_port: 3001,
        static_dir: "./frontend/dist".into(),
        consumer_group: "test-group".into(),
        security: SecurityConfig {
            security_protocol: Some("INVALID".into()),
            sasl_mechanism: None,
            sasl_username: None,
            sasl_password: None,
        },
    };
    let err = config.validate().unwrap_err();
    assert!(err.contains("invalid security_protocol"));
}

#[test]
fn test_config_validation_valid_sasl() {
    let config = AppConfig {
        kafka_brokers: "confluent:9092".into(),
        server_host: "0.0.0.0".into(),
        server_port: 3001,
        static_dir: "./frontend/dist".into(),
        consumer_group: "test-group".into(),
        security: SecurityConfig {
            security_protocol: Some("SASL_SSL".into()),
            sasl_mechanism: Some("PLAIN".into()),
            sasl_username: Some("key".into()),
            sasl_password: Some("secret".into()),
        },
    };
    assert!(config.validate().is_ok());
}

#[test]
fn integration_tests_test_validate_brokers_valid() {
    assert!(kafka_dashboard::config::validate_brokers("localhost:9094").is_ok());
    assert!(kafka_dashboard::config::validate_brokers("host1:9092,host2:9092").is_ok());
}

#[test]
fn integration_tests_test_validate_brokers_empty() {
    assert!(kafka_dashboard::config::validate_brokers("").is_err());
    assert!(kafka_dashboard::config::validate_brokers("  ").is_err());
}

#[test]
fn integration_tests_test_validate_brokers_no_port() {
    let err = kafka_dashboard::config::validate_brokers("localhost").unwrap_err();
    assert!(err.contains("host:port"));
}

#[test]
fn integration_tests_test_validate_topic_name_valid() {
    assert!(kafka_dashboard::config::validate_topic_name("orders").is_ok());
    assert!(kafka_dashboard::config::validate_topic_name("my-topic.v2").is_ok());
    assert!(kafka_dashboard::config::validate_topic_name("test_topic_123").is_ok());
}

#[test]
fn integration_tests_test_validate_topic_name_empty() {
    assert!(kafka_dashboard::config::validate_topic_name("").is_err());
}

#[test]
fn integration_tests_test_validate_topic_name_invalid_chars() {
    assert!(kafka_dashboard::config::validate_topic_name("topic name").is_err());
    assert!(kafka_dashboard::config::validate_topic_name("topic/path").is_err());
    assert!(kafka_dashboard::config::validate_topic_name("topic@special").is_err());
}

#[test]
fn test_dashboard_error_display() {
    let err = DashboardError::Config("bad value".into());
    assert_eq!(err.message(), "Configuration error: bad value");
}

#[test]
fn test_dashboard_error_topic_not_found() {
    let err = DashboardError::TopicNotFound("missing-topic".into());
    assert!(err.message().contains("missing-topic"));
}

#[test]
fn test_dashboard_error_validation() {
    let err = DashboardError::Validation("invalid input".into());
    assert!(err.message().contains("invalid input"));
}

#[test]
fn test_security_config_default_not_configured() {
    let sec = SecurityConfig::default();
    assert!(!sec.is_configured());
}

#[test]
fn test_security_config_partial_is_configured() {
    let sec = SecurityConfig {
        security_protocol: Some("SSL".into()),
        sasl_mechanism: None,
        sasl_username: None,
        sasl_password: None,
    };
    assert!(sec.is_configured());
}
