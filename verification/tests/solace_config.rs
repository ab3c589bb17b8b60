use feldera_connectors::solace::basic;
use feldera_connectors::solace::config::{
    solace_log_level, OutputDeliveryMode, SolaceInputConfig, SolaceLogLevel, SolaceOutputConfig,
};
use feldera_connectors::solace::topic::parse_topic_fields;

fn input_cfg(host: &str, port: u16) -> SolaceInputConfig {
    SolaceInputConfig {
        host: host.into(),
        port,
        username: "u".into(),
        password: "p".into(),
        queue: "q".into(),
        window_size: 255,
        ..Default::default()
    }
}

fn output_cfg(host: &str, port: u16) -> SolaceOutputConfig {
    SolaceOutputConfig {
        host: host.into(),
        port,
        username: "u".into(),
        password: "p".into(),
        topic: "t".into(),
        ..Default::default()
    }
}

#[test]
fn input_smf_url_default_port() {
    assert_eq!(
        input_cfg("broker.example.com", 55555).smf_url(),
        "tcp://broker.example.com:55555"
    );
}

#[test]
fn input_smf_url_custom_port() {
    assert_eq!(
        input_cfg("localhost", 1234).smf_url(),
        "tcp://localhost:1234"
    );
}

#[test]
fn input_smf_url_tls() {
    let mut cfg = input_cfg("broker.example.com", 55443);
    cfg.tls = true;
    assert_eq!(cfg.smf_url(), "tcps://broker.example.com:55443");
}

#[test]
fn output_smf_url() {
    assert_eq!(
        output_cfg("mq.prod.corp", 55555).smf_url(),
        "tcp://mq.prod.corp:55555"
    );
}

#[test]
fn input_validate_accepts_defaults() {
    assert!(input_cfg("h", 55555).validate().is_ok());
}

#[test]
fn input_validate_rejects_zero_window() {
    let mut cfg = input_cfg("h", 55555);
    cfg.window_size = 0;
    assert!(cfg.validate().is_err());
}

#[test]
fn input_validate_rejects_empty_queue() {
    let mut cfg = input_cfg("h", 55555);
    cfg.queue = "  ".into();
    assert!(cfg.validate().is_err());
}

#[test]
fn input_validate_trust_store_requires_tls() {
    let mut cfg = input_cfg("h", 55555);
    cfg.ssl_trust_store_dir = Some("/certs".into());
    assert!(
        cfg.validate().is_err(),
        "trust store without tls is invalid"
    );
    cfg.tls = true;
    assert!(cfg.validate().is_ok());
}

#[test]
fn input_validate_rejects_oversized_window() {
    let mut cfg = input_cfg("h", 55555);
    cfg.window_size = 256;
    assert!(cfg.validate().is_err());
    cfg.window_size = 255;
    assert!(cfg.validate().is_ok());
}

#[test]
fn input_validate_max_unacked_bounds() {
    let mut cfg = input_cfg("h", 55555);
    cfg.max_unacked = Some(-1);
    assert!(cfg.validate().is_ok(), "-1 means no limit");
    cfg.max_unacked = Some(100);
    assert!(cfg.validate().is_ok());
    cfg.max_unacked = Some(0);
    assert!(cfg.validate().is_err());
    cfg.max_unacked = Some(-5);
    assert!(cfg.validate().is_err());
}

#[test]
fn input_validate_rejects_oversized_dedup_history() {
    let mut cfg = input_cfg("h", 55555);
    cfg.dedup_history_size = 10_000_001;
    assert!(cfg.validate().is_err());
    cfg.dedup_history_size = 0;
    assert!(cfg.validate().is_ok(), "0 disables dedup");
}

#[test]
fn validate_rejects_bad_reconnect_retries() {
    let mut input = input_cfg("h", 55555);
    input.reconnect_retries = -5;
    assert!(input.validate().is_err(), "-5 is not a retry count");
    input.reconnect_retries = -1;
    assert!(input.validate().is_ok(), "-1 means retry forever");

    let mut output = output_cfg("h", 55555);
    output.reconnect_retries = -5;
    assert!(output.validate().is_err());
}

#[test]
fn output_validate_rejects_empty_topic() {
    let mut cfg = output_cfg("h", 55555);
    cfg.topic = "".into();
    assert!(cfg.validate().is_err());
}

#[test]
fn output_validate_dedup_window_bounds() {
    let mut cfg = output_cfg("h", 55555);
    cfg.dedup_window_ms = Some(0);
    assert!(
        cfg.validate().is_err(),
        "0 ms is not a window; omit to disable"
    );
    cfg.dedup_window_ms = Some(1);
    assert!(cfg.validate().is_ok());
    cfg.dedup_window_ms = None;
    assert!(cfg.validate().is_ok());
}

#[test]
fn output_validate_rejects_zero_ack_knobs() {
    let mut cfg = output_cfg("h", 55555);
    cfg.ack_timeout_secs = 0;
    assert!(cfg.validate().is_err());

    let mut cfg = output_cfg("h", 55555);
    cfg.max_inflight_acks = 0;
    assert!(
        cfg.validate().is_err(),
        "0 would mean one blocking round-trip per message"
    );
}

#[test]
fn delivery_mode_default_is_direct() {
    assert_eq!(OutputDeliveryMode::default(), OutputDeliveryMode::Direct);
}

#[test]
fn input_validate_reports_each_problem() {
    let broken = |change: fn(&mut SolaceInputConfig)| {
        let mut cfg = input_cfg("h", 55555);
        change(&mut cfg);
        cfg.validate().unwrap_err()
    };
    assert_eq!(
        broken(|c| c.window_size = 256),
        "window_size must be in 1..=255"
    );
    assert_eq!(
        broken(|c| c.max_unacked = Some(0)),
        "max_unacked must be > 0, or -1 for no limit"
    );
    assert_eq!(
        broken(|c| c.dedup_history_size = 10_000_001),
        "dedup_history_size must be <= 10000000 (each entry costs roughly 150 bytes of memory)"
    );
    assert_eq!(
        broken(|c| c.retry_interval_secs = 0),
        "retry_interval_secs must be >= 1"
    );
    assert_eq!(
        broken(|c| c.username = "\u{2003}".into()),
        "username must not be empty"
    );
    assert_eq!(
        broken(|c| c.queue = "\t".into()),
        "queue must not be empty"
    );
    assert_eq!(broken(|c| c.host = " ".into()), "host must not be empty");
    assert_eq!(
        broken(|c| c.connect_timeout_secs = 0),
        "connect_timeout_secs must be >= 1"
    );
    assert_eq!(
        broken(|c| c.reconnect_retries = -2),
        "reconnect_retries must be >= 0, or -1 to retry forever"
    );
    assert_eq!(
        broken(|c| c.ssl_trust_store_dir = Some("/certs".into())),
        "ssl_trust_store_dir requires tls = true"
    );
}

#[test]
fn output_validate_reports_each_problem() {
    let broken = |change: fn(&mut SolaceOutputConfig)| {
        let mut cfg = output_cfg("h", 55555);
        change(&mut cfg);
        cfg.validate().unwrap_err()
    };
    assert_eq!(
        broken(|c| c.username = "".into()),
        "username must not be empty"
    );
    assert_eq!(broken(|c| c.topic = " ".into()), "topic must not be empty");
    assert_eq!(
        broken(|c| c.ack_timeout_secs = 0),
        "ack_timeout_secs must be >= 1"
    );
    assert_eq!(
        broken(|c| c.max_inflight_acks = 0),
        "max_inflight_acks must be >= 1"
    );
    assert_eq!(
        broken(|c| c.dedup_window_ms = Some(0)),
        "dedup_window_ms must be >= 1 when set; omit it to disable"
    );
    assert_eq!(broken(|c| c.host = "".into()), "host must not be empty");
}

#[test]
fn blank_defaults_name_the_first_missing_setting() {
    assert_eq!(
        SolaceInputConfig::default().validate().unwrap_err(),
        "username must not be empty"
    );
    assert_eq!(
        SolaceOutputConfig::default().validate().unwrap_err(),
        "username must not be empty"
    );
}

#[test]
fn defaults_have_the_documented_values() {
    let input = SolaceInputConfig::default();
    assert_eq!(input.port, 55555);
    assert_eq!(input.vpn, "default");
    assert_eq!(input.window_size, 255);
    assert_eq!(input.topic_pattern, None);
    assert_eq!(input.dedup_history_size, 100_000);
    assert!(!input.reject_parse_errors);
    assert!(!input.tls);
    assert_eq!(input.connect_timeout_secs, 10);
    assert_eq!(input.reconnect_retries, 3);
    assert_eq!(input.reconnect_retry_wait_ms, 3000);
    assert_eq!(input.retry_interval_secs, 5);
    assert_eq!(input.max_unacked, None);
    assert_eq!(input.log_level, None);

    let output = SolaceOutputConfig::default();
    assert_eq!(output.port, 55555);
    assert_eq!(output.vpn, "default");
    assert_eq!(output.delivery_mode, OutputDeliveryMode::Direct);
    assert_eq!(output.max_inflight_acks, 256);
    assert_eq!(output.ack_timeout_secs, 30);
    assert_eq!(output.dedup_window_ms, None);
}

#[test]
fn metadata_is_opt_in() {
    let mut cfg = input_cfg("h", 55555);
    assert!(!cfg.metadata_requested());
    cfg.include_topic = true;
    assert!(cfg.metadata_requested());
    cfg.include_topic = false;
    cfg.include_broker_timestamp = true;
    assert!(cfg.metadata_requested());
    cfg.include_broker_timestamp = false;
    cfg.topic_pattern = Some("a/{b}".into());
    assert!(cfg.metadata_requested());
}

#[test]
fn session_settings_follow_the_configuration() {
    let mut input = input_cfg("h", 1);
    input.client_name = Some("me".into());
    input.tls = true;
    input.ssl_trust_store_dir = Some("/certs".into());
    let settings = input.session_settings();
    assert_eq!(settings.host_name, "tcps://h:1");
    assert_eq!(settings.vpn_name, "default");
    assert_eq!(settings.username, "u");
    assert_eq!(settings.password, "p");
    assert_eq!(settings.reconnect_retries, 3);
    assert_eq!(settings.reconnect_retry_wait_ms, 3000);
    assert_eq!(settings.connect_timeout_ms, 10_000);
    assert!(settings.generate_rcv_timestamps);
    assert_eq!(settings.client_name.as_deref(), Some("me"));
    assert_eq!(settings.ssl_trust_store_dir.as_deref(), Some("/certs"));
    assert_eq!(settings.log_level, SolaceLogLevel::Warning);

    let mut output = output_cfg("h", 2);
    output.connect_timeout_secs = u64::MAX;
    output.log_level = Some(SolaceLogLevel::Debug);
    let settings = output.session_settings();
    assert_eq!(settings.host_name, "tcp://h:2");
    assert_eq!(settings.connect_timeout_ms, u64::MAX);
    assert!(!settings.generate_rcv_timestamps);
    assert_eq!(settings.client_name, None);
    assert_eq!(settings.log_level, SolaceLogLevel::Debug);
}

#[test]
fn log_level_defaults_to_warning() {
    assert_eq!(solace_log_level(None), SolaceLogLevel::Warning);
    for level in [
        SolaceLogLevel::Critical,
        SolaceLogLevel::Error,
        SolaceLogLevel::Warning,
        SolaceLogLevel::Notice,
        SolaceLogLevel::Info,
        SolaceLogLevel::Debug,
    ] {
        assert_eq!(solace_log_level(Some(level)), level);
    }
}

#[test]
fn basic_configurations_use_plaintext() {
    let input = basic::SolaceInputConfig {
        host: "localhost".into(),
        port: 55555,
        vpn: "default".into(),
        username: "admin".into(),
        password: "admin".into(),
        queue: "my-queue".into(),
        window_size: 255,
        topic_pattern: None,
    };
    assert_eq!(input.smf_url(), "tcp://localhost:55555");
    let output = basic::SolaceOutputConfig {
        host: "localhost".into(),
        port: 0,
        vpn: "default".into(),
        username: "admin".into(),
        password: "admin".into(),
        topic: "demo".into(),
        delivery_mode: basic::OutputDeliveryMode::default(),
    };
    assert_eq!(output.smf_url(), "tcp://localhost:0");
    assert_eq!(output.delivery_mode, basic::OutputDeliveryMode::Direct);
}

fn captures(pattern: &str, topic: &str) -> Vec<(String, String)> {
    parse_topic_fields(pattern, topic)
}

#[test]
fn topic_levels_are_captured() {
    assert_eq!(
        captures(
            "demo/events/{region}/{event_type}",
            "demo/events/us-east/order"
        ),
        vec![
            ("region".to_string(), "us-east".to_string()),
            ("event_type".to_string(), "order".to_string())
        ]
    );
}

#[test]
fn topic_levels_beyond_the_shorter_are_ignored() {
    assert_eq!(
        captures("{a}/{b}/{c}", "x/y"),
        vec![
            ("a".to_string(), "x".to_string()),
            ("b".to_string(), "y".to_string())
        ]
    );
    assert_eq!(
        captures("{a}", "x/y/z"),
        vec![("a".to_string(), "x".to_string())]
    );
    assert_eq!(
        captures("{a}", ""),
        vec![("a".to_string(), "".to_string())]
    );
}

#[test]
fn static_and_empty_segments_capture_nothing() {
    assert!(captures("demo/events", "demo/events").is_empty());
    assert!(captures("{}/x{y}/{z", "a/b/c").is_empty());
}
