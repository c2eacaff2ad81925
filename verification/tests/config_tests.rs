use kafka_dashboard::config::{validate_brokers, validate_topic_name, AppConfig, Args, EnvVars, SecurityConfig};

fn no_env() -> EnvVars {
    EnvVars {
        kafka_brokers: None,
        server_host: None,
        server_port: None,
        static_dir: None,
        consumer_group: None,
        security_protocol: None,
        sasl_mechanism: None,
        sasl_username: None,
        sasl_password: None,
    }
}

#[test]
fn test_default_config_values() {
    let args = Args {
        brokers: "localhost:9094".into(),
        port: 3001,
        host: "127.0.0.1".into(),
        static_dir: "./frontend/dist".into(),
        security_protocol: None,
        sasl_mechanism: None,
        sasl_username: None,
        sasl_password: None,
    };
    let config = AppConfig::from_args_and_env(args, no_env());
    assert_eq!(config.kafka_brokers, "localhost:9094");
    assert_eq!(config.server_port, 3001);
    assert_eq!(config.server_host, "127.0.0.1");
    assert_eq!(config.consumer_group, "kafka-dashboard");
    assert!(!config.security.is_configured());
}

#[test]
fn test_args_override() {
    let args = Args {
        brokers: "kafka:9092".into(),
        port: 8080,
        host: "0.0.0.0".into(),
        static_dir: "/custom/path".into(),
        security_protocol: None,
        sasl_mechanism: None,
        sasl_username: None,
        sasl_password: None,
    };
    let config = AppConfig::from_args_and_env(args, no_env());
    assert_eq!(config.kafka_brokers, "kafka:9092");
    assert_eq!(config.server_port, 8080);
    assert_eq!(config.static_dir, "/custom/path");
}

#[test]
fn test_security_config_not_configured() {
    let sec = SecurityConfig::default();
    assert!(!sec.is_configured());
}

#[test]
fn test_security_config_configured() {
    let sec = SecurityConfig {
        security_protocol: Some("SASL_SSL".into()),
        sasl_mechanism: Some("PLAIN".into()),
        sasl_username: Some("key".into()),
        sasl_password: Some("secret".into()),
    };
    assert!(sec.is_configured());
}

#[test]
fn test_security_config_from_args() {
    let args = Args {
        brokers: "confluent:9092".into(),
        port: 3001,
        host: "127.0.0.1".into(),
        static_dir: "./frontend/dist".into(),
        security_protocol: Some("SASL_SSL".into()),
        sasl_mechanism: Some("PLAIN".into()),
        sasl_username: Some("key".into()),
        sasl_password: Some("secret".into()),
    };
    let config = AppConfig::from_args_and_env(args, no_env());
    assert!(config.security.is_configured());
    assert_eq!(
        config.security.security_protocol.as_deref(),
        Some("SASL_SSL")
    );
}

#[test]
fn test_validate_config_valid() {
    let config = AppConfig {
        kafka_brokers: "localhost:9094".into(),
        server_host: "127.0.0.1".into(),
        server_port: 3001,
        static_dir: "./frontend/dist".into(),
        consumer_group: "test".into(),
        security: SecurityConfig::default(),
    };
    assert!(config.validate().is_ok());
}

#[test]
fn test_validate_config_empty_brokers() {
    let config = AppConfig {
        kafka_brokers: "".into(),
        server_host: "127.0.0.1".into(),
        server_port: 3001,
        static_dir: "./frontend/dist".into(),
        consumer_group: "test".into(),
        security: SecurityConfig::default(),
    };
    let err = config.validate().unwrap_err();
    assert!(err.contains("must not be empty"));
}

#[test]
fn test_validate_config_zero_port() {
    let config = AppConfig {
        kafka_brokers: "localhost:9094".into(),
        server_host: "127.0.0.1".into(),
        server_port: 0,
        static_dir: "./frontend/dist".into(),
        consumer_group: "test".into(),
        security: SecurityConfig::default(),
    };
    let err = config.validate().unwrap_err();
    assert!(err.contains("must not be 0"));
}

#[test]
fn test_validate_config_sasl_without_credentials() {
    let config = AppConfig {
        kafka_brokers: "localhost:9094".into(),
        server_host: "127.0.0.1".into(),
        server_port: 3001,
        static_dir: "./frontend/dist".into(),
        consumer_group: "test".into(),
        security: SecurityConfig {
            security_protocol: Some("SASL_SSL".into()),
            sasl_mechanism: None,
            sasl_username: None,
            sasl_password: None,
        },
    };
    let err = config.validate().unwrap_err();
    assert!(err.contains("sasl_mechanism is required"));
}

#[test]
fn test_validate_config_invalid_protocol() {
    let config = AppConfig {
        kafka_brokers: "localhost:9094".into(),
        server_host: "127.0.0.1".into(),
        server_port: 3001,
        static_dir: "./frontend/dist".into(),
        consumer_group: "test".into(),
        security: SecurityConfig {
            security_protocol: Some("INVALID".into()),
            sasl_mechanism: None,
            sasl_username: None,
            sasl_password: None,
        },
    };
    let err = config.validate().unwrap_err();
    assert!(err.contains("invalid security_protocol"));
}

#[test]
fn config_test_validate_brokers_valid() {
    assert!(validate_brokers("localhost:9094").is_ok());
    assert!(validate_brokers("host1:9092,host2:9092").is_ok());
}

#[test]
fn config_test_validate_brokers_empty() {
    assert!(validate_brokers("").is_err());
    assert!(validate_brokers("  ").is_err());
}

#[test]
fn config_test_validate_brokers_no_port() {
    let err = validate_brokers("localhost").unwrap_err();
    assert!(err.contains("host:port"));
}

#[test]
fn config_test_validate_topic_name_valid() {
    assert!(validate_topic_name("orders").is_ok());
    assert!(validate_topic_name("my-topic.v2").is_ok());
    assert!(validate_topic_name("test_topic_123").is_ok());
}

#[test]
fn config_test_validate_topic_name_empty() {
    assert!(validate_topic_name("").is_err());
}

#[test]
fn config_test_validate_topic_name_invalid_chars() {
    assert!(validate_topic_name("topic name").is_err());
    assert!(validate_topic_name("topic/path").is_err());
    assert!(validate_topic_name("topic@special").is_err());
}
