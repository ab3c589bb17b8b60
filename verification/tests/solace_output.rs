use std::time::Duration;

use feldera_connectors::solace::config::{OutputDeliveryMode, SolaceOutputConfig};
use feldera_connectors::solace::events::{drain_session_event, SessionEvent};
use feldera_connectors::solace::output::{
    check_destination, context_error, message_error, publish_error, session_error, AckDrain,
    AckOutcome, SolaceOutputEndpoint,
};
use feldera_connectors::solace::routing::{
    render_topic, resolve_parsed, resolve_topic, validate_output_format, JsonDocument, JsonLeaf,
    JsonMember,
};
use feldera_connectors::solace::topic_map::TopicMap;
use feldera_connectors::solace::window::{DedupState, MAX_ENTRIES};

const WINDOW: Duration = Duration::from_secs(3);

fn secs(n: u64) -> u128 {
    Duration::from_secs(n).as_nanos()
}

#[test]
fn dedup_first_record_sends_immediately() {
    let mut dedup = DedupState::new(WINDOW.as_nanos(), 0);
    let now = secs(7);
    assert!(dedup.should_send("t/a", b"1", now));
    assert!(
        dedup.should_send("t/b", b"1", now),
        "topics throttle independently"
    );
}

#[test]
fn dedup_conflates_latest_inside_window() {
    let start = secs(100);
    let window = WINDOW.as_nanos();
    let mut dedup = DedupState::new(window, start);
    assert!(dedup.should_send("t", b"1", start));
    assert!(!dedup.should_send("t", b"2", start + secs(1)));
    assert!(!dedup.should_send("t", b"3", start + secs(2)));

    // Nothing flushes before the window expires.
    assert!(dedup.take_expired(start + secs(2)).is_empty());

    // After expiry, exactly one message per topic, carrying the latest value.
    let flushed = dedup.take_expired(start + window);
    assert_eq!(flushed, vec![("t".to_string(), b"3".to_vec())]);

    // The flush restarts the window from the flush time.
    assert!(!dedup.should_send("t", b"4", start + window + secs(1)));
}

#[test]
fn dedup_send_after_expiry_drops_stale_pending() {
    let start = secs(100);
    let window = WINDOW.as_nanos();
    let mut dedup = DedupState::new(window, start);
    assert!(dedup.should_send("t", b"1", start));
    assert!(!dedup.should_send("t", b"2", start + secs(1)));
    // A record arriving after expiry publishes directly; the conflated
    // "2" is older than it and must not flush later.
    assert!(dedup.should_send("t", b"3", start + window));
    assert!(dedup.take_expired(start + 2 * window).is_empty());
}

#[test]
fn dedup_cap_resets_throttle_without_losing_pending() {
    let start = secs(100);
    let mut dedup = DedupState::new(WINDOW.as_nanos(), start);
    for i in 0..MAX_ENTRIES {
        assert!(dedup.should_send(&format!("t/{i}"), b"1", start));
    }
    assert!(!dedup.should_send("t/0", b"2", start + secs(1)));

    // The next publish hits the cap with every tracker still live, so the
    // throttle state resets and the new topic sends immediately.
    assert!(dedup.should_send("t/new", b"1", start + secs(1)));
    assert!(dedup.topics() < MAX_ENTRIES);

    // The conflated record survives the reset and flushes at the next
    // boundary (its tracker is gone, so it counts as expired).
    let flushed = dedup.take_expired(start + secs(2));
    assert_eq!(flushed, vec![("t/0".to_string(), b"2".to_vec())]);
}

#[test]
fn dedup_cap_evicts_expired_trackers_first() {
    let start = secs(100);
    let mut dedup = DedupState::new(WINDOW.as_nanos(), start);
    for i in 0..MAX_ENTRIES {
        assert!(dedup.should_send(&format!("t/{i}"), b"1", start));
    }
    assert!(dedup.should_send("t/0", b"2", start + secs(3)));
    assert_eq!(dedup.topics(), 1);
    assert!(!dedup.should_send("t/0", b"3", start + secs(4)));
}

#[test]
fn dedup_reports_conflation_once_a_minute() {
    let mut dedup = DedupState::new(secs(200), 0);
    assert!(dedup.should_send("t", b"1", 0));
    assert!(!dedup.should_send("t", b"2", secs(30)));
    assert_eq!(dedup.take_report(), None);
    assert!(!dedup.should_send("t", b"3", secs(61)));
    assert_eq!(dedup.take_report(), Some((2, secs(61))));
    assert_eq!(dedup.take_report(), None);
    assert_eq!(dedup.conflated(), 0);
}

#[test]
fn dedup_publishes_at_most_once_per_window() {
    let window = WINDOW.as_nanos();
    let mut dedup = DedupState::new(window, 0);
    let mut published = Vec::new();
    for tick in 0..20u64 {
        let now = secs(tick);
        if dedup.should_send("t", &tick.to_be_bytes(), now) {
            published.push(now);
        }
        for _ in dedup.take_expired(now) {
            published.push(now);
        }
    }
    assert!(published.len() >= 6);
    for pair in published.windows(2) {
        assert!(pair[1] - pair[0] >= window);
    }
}

/// The payloads published to topic `t`, with the times, when records for `others`
/// arrive in between.
fn published_with(others: &[&str]) -> Vec<(u64, Vec<u8>)> {
    let mut dedup = DedupState::new(WINDOW.as_nanos(), 0);
    let mut published = Vec::new();
    for tick in 0..15u64 {
        let now = secs(tick);
        for other in others {
            dedup.should_send(other, b"other", now);
        }
        if tick % 2 == 0 && dedup.should_send("t", &[tick as u8], now) {
            published.push((tick, vec![tick as u8]));
        }
        for (topic, payload) in dedup.take_expired(now) {
            if topic == "t" {
                published.push((tick, payload));
            }
        }
    }
    published
}

#[test]
fn dedup_topics_do_not_affect_each_other() {
    let alone = published_with(&[]);
    assert_eq!(alone[..3], [(0, vec![0]), (3, vec![2]), (6, vec![6])]);
    assert_eq!(published_with(&["a"]), alone);
    assert_eq!(published_with(&["a", "b/c", "t/"]), alone);
}

#[test]
fn topic_maps_can_be_walked() {
    let mut map: TopicMap<u64> = TopicMap::new();
    map.insert("a", 1);
    map.insert("b", 2);
    map.insert("c", 3);
    map.insert("a", 4);
    map.remove("b");
    map.remove("x");
    assert_eq!(map.len(), 2);
    assert_eq!(map.get("a"), Some(&4));
    assert_eq!(map.get("b"), None);
    assert_eq!(map.get("c"), Some(&3));
    assert_eq!(map.entry(1).1, 3);
    let mut entries = map.into_entries();
    entries.sort();
    assert_eq!(entries, vec![("a".to_string(), 4), ("c".to_string(), 3)]);
}

#[test]
fn dynamic_topic_requires_json_format() {
    let config = SolaceOutputConfig {
        topic: "demo/{region}".into(),
        ..Default::default()
    };
    assert!(validate_output_format(&config, Some("json")).is_ok());
    assert!(validate_output_format(&config, Some("csv")).is_err());
    assert!(validate_output_format(&config, Some("avro")).is_err());
    assert!(validate_output_format(&config, None).is_err());
}

#[test]
fn static_topic_accepts_any_format() {
    let config = SolaceOutputConfig {
        topic: "demo/results/all".into(),
        ..Default::default()
    };
    assert!(validate_output_format(&config, Some("csv")).is_ok());
    assert!(validate_output_format(&config, Some("json")).is_ok());
    assert!(validate_output_format(&config, None).is_ok());
}

#[test]
fn format_rejections_say_why() {
    let config = SolaceOutputConfig {
        topic: "demo/{region}".into(),
        ..Default::default()
    };
    assert_eq!(
        validate_output_format(&config, Some("csv")).unwrap_err(),
        "Solace output topic 'demo/{region}' contains {field} placeholders, which are resolved from JSON-encoded records; this endpoint uses format \"csv\". Configure the connector with format \"json\" or use a static topic."
    );
    assert_eq!(
        validate_output_format(&config, None).unwrap_err(),
        "Solace output topic 'demo/{region}' contains {field} placeholders, which are resolved from JSON-encoded records; this endpoint uses no output format. Configure the connector with format \"json\" or use a static topic."
    );
}

#[test]
fn static_topic_passthrough() {
    assert_eq!(resolve_topic("demo/results/all", b"{}"), "demo/results/all");
}

#[test]
fn top_level_field_substitution() {
    let buf = br#"{"region":"us-east","event_type":"order"}"#;
    assert_eq!(
        resolve_topic("demo/results/{region}/{event_type}", buf),
        "demo/results/us-east/order"
    );
}

#[test]
fn insert_delete_wrapper() {
    let buf = br#"{"insert":{"region":"eu-west","event_type":"login"}}"#;
    assert_eq!(
        resolve_topic("demo/{region}/{event_type}", buf),
        "demo/eu-west/login"
    );
}

#[test]
fn delete_wrapper() {
    let buf = br#"{"delete":{"region":"ap-south","event_type":"logout"}}"#;
    assert_eq!(
        resolve_topic("{region}/{event_type}", buf),
        "ap-south/logout"
    );
}

#[test]
fn missing_field_keeps_placeholder() {
    let buf = br#"{"region":"us-east"}"#;
    assert_eq!(
        resolve_topic("{region}/{missing}", buf),
        "us-east/{missing}"
    );
}

#[test]
fn invalid_json_returns_template() {
    assert_eq!(
        resolve_topic("{region}/results", b"not json"),
        "{region}/results"
    );
}

#[test]
fn numeric_field_value_no_quotes() {
    let buf = br#"{"count":42}"#;
    assert_eq!(resolve_topic("stats/{count}", buf), "stats/42");
}

#[test]
fn same_placeholder_repeated() {
    let buf = br#"{"region":"us-east"}"#;
    assert_eq!(
        resolve_topic("{region}/{region}", buf),
        "us-east/us-east"
    );
}

#[test]
fn unclosed_brace_kept_literally() {
    let buf = br#"{"region":"us-east"}"#;
    // `{region` without closing `}` — kept as-is.
    assert_eq!(resolve_topic("{region/end", buf), "{region/end");
}

#[test]
fn empty_brace_kept_literally() {
    // `{}` has an empty field name; an empty object has no such field, so the
    // placeholder is preserved as `{}`.
    assert_eq!(resolve_topic("{}/end", b"{}"), "{}/end");
}

#[test]
fn no_braces_empty_buffer() {
    assert_eq!(resolve_topic("static/topic", b""), "static/topic");
}

#[test]
fn nested_and_wrapped_values_are_shown_in_compact_notation() {
    let buf = br#"{"a":{"b": [1, true, null]},"c":"x\"y","d":false}"#;
    assert_eq!(
        resolve_topic("{a}|{c}|{d}", buf),
        "{\"b\":[1,true,null]}|x\"y|false"
    );
    // An insert that is no object has no fields.
    assert_eq!(
        resolve_topic("{region}", br#"{"insert":null,"region":"x"}"#),
        "{region}"
    );
    // An insert goes before a delete.
    assert_eq!(
        resolve_topic("{k}", br#"{"delete":{"k":1},"insert":{"k":2}}"#),
        "2"
    );
    // A document that is no object has no fields either.
    assert_eq!(resolve_topic("{k}", b"[1]"), "{k}");
}

fn leaf(text: &str) -> JsonLeaf {
    JsonLeaf {
        text: Some(text.to_string()),
        compact: format!("\"{text}\""),
    }
}

#[test]
fn parsed_documents_are_resolved() {
    let document = JsonDocument {
        members: vec![JsonMember {
            name: "insert".to_string(),
            value: JsonLeaf {
                text: None,
                compact: "{\"region\":\"eu\"}".to_string(),
            },
            members: vec![("region".to_string(), leaf("eu"))],
        }],
    };
    assert_eq!(resolve_parsed("a/{region}/{x}", &document), "a/eu/{x}");
    assert_eq!(
        render_topic("{n}{n}", &vec![("n".to_string(), leaf("1"))]),
        "11"
    );
}

fn output_config(mode: OutputDeliveryMode) -> SolaceOutputConfig {
    SolaceOutputConfig {
        host: "h".into(),
        username: "u".into(),
        password: "p".into(),
        topic: "feldera/test".into(),
        delivery_mode: mode,
        ..Default::default()
    }
}

#[test]
fn endpoints_need_a_valid_configuration() {
    let error = |config: SolaceOutputConfig| match SolaceOutputEndpoint::new(config, 0) {
        Ok(_) => panic!("unexpected success"),
        Err(e) => e,
    };
    let mut config = output_config(OutputDeliveryMode::Direct);
    config.topic = "".into();
    assert_eq!(
        error(config),
        "invalid Solace output config: topic must not be empty"
    );
    let mut config = output_config(OutputDeliveryMode::Direct);
    config.topic = "a\0b".into();
    assert_eq!(
        error(config),
        "invalid topic 'a\0b': FieldConvertionError(\"dest_type\")"
    );
    // A template is checked only once it is resolved.
    let mut config = output_config(OutputDeliveryMode::Direct);
    config.topic = "a\0{b}".into();
    assert!(SolaceOutputEndpoint::new(config, 0).is_ok());
    assert!(check_destination("a/b").is_ok());
    assert!(check_destination("a\0").is_err());
}

#[test]
fn topics_are_static_or_resolved() {
    let endpoint = SolaceOutputEndpoint::new(output_config(OutputDeliveryMode::Direct), 0)
        .ok()
        .unwrap();
    assert_eq!(endpoint.topic_for(b"anything"), "feldera/test");
    let mut config = output_config(OutputDeliveryMode::Direct);
    config.topic = "r/{region}".into();
    let endpoint = SolaceOutputEndpoint::new(config, 0).ok().unwrap();
    assert_eq!(endpoint.topic_for(br#"{"region":"eu"}"#), "r/eu");
    assert_eq!(endpoint.config().topic, "r/{region}");
}

#[test]
fn output_persistent_publish_is_acknowledged() {
    let mut endpoint = SolaceOutputEndpoint::new(output_config(OutputDeliveryMode::Persistent), 0)
        .ok()
        .unwrap();
    assert_eq!(
        endpoint.check_registered().unwrap_err(),
        "output endpoint not connected"
    );
    endpoint.register();
    assert!(endpoint.check_registered().is_ok());
    assert!(!endpoint.is_healthy(false));
    endpoint.finish_rebuild(0, Ok(())).unwrap();
    assert!(endpoint.is_healthy(false));

    for _ in 0..100 {
        assert_eq!(endpoint.record_publish(0), None);
    }
    let drain = endpoint.begin_drain(0);
    assert_eq!(drain.total, 100);
    let outcomes: Vec<AckOutcome> = (0..drain.total).map(|_| AckOutcome::Acked).collect();
    assert!(endpoint.drain_pending_acks(&drain, &outcomes).is_ok());
    assert_eq!(endpoint.begin_drain(0).total, 0);
}

#[test]
fn the_window_of_acks_is_bounded() {
    let mut config = output_config(OutputDeliveryMode::Persistent);
    config.max_inflight_acks = 3;
    let mut endpoint = SolaceOutputEndpoint::new(config, 0).ok().unwrap();
    assert_eq!(endpoint.record_publish(0), None);
    assert_eq!(endpoint.record_publish(secs(1)), None);
    assert_eq!(
        endpoint.record_publish(secs(2)),
        Some(AckDrain {
            total: 3,
            deadline: secs(32)
        })
    );
    assert_eq!(endpoint.begin_drain(0).total, 0);

    let mut direct = SolaceOutputEndpoint::new(output_config(OutputDeliveryMode::Direct), 0)
        .ok()
        .unwrap();
    for _ in 0..1000 {
        assert_eq!(direct.record_publish(0), None);
    }
    assert_eq!(direct.begin_drain(0).total, 0);
}

#[test]
fn every_publish_of_a_batch_is_awaited() {
    let mut config = output_config(OutputDeliveryMode::Persistent);
    config.max_inflight_acks = 4;
    let mut endpoint = SolaceOutputEndpoint::new(config, 0).unwrap();
    let drained: usize = (0..11)
        .filter_map(|_| endpoint.record_publish(0))
        .map(|drain| drain.total)
        .sum();
    assert_eq!(drained, 8);
    assert_eq!(endpoint.begin_drain(0).total, 3);
}

#[test]
fn one_deadline_bounds_a_whole_drain() {
    let mut config = output_config(OutputDeliveryMode::Persistent);
    config.ack_timeout_secs = 30;
    let mut endpoint = SolaceOutputEndpoint::new(config, 0).ok().unwrap();
    for _ in 0..5 {
        endpoint.record_publish(0);
    }
    let drain = endpoint.begin_drain(secs(100));
    assert_eq!(drain.deadline, secs(130));
    assert_eq!(drain.remaining(secs(100)), secs(30));
    // Each wait uses up what the next one may take.
    let mut now = secs(100);
    let mut waited = 0;
    for wish in [12, 12, 12, 12, 12] {
        let wait = drain.remaining(now).min(secs(wish));
        now += wait;
        waited += wait;
    }
    assert_eq!(waited, secs(30));
    assert_eq!(drain.remaining(now), 0);
    assert_eq!(drain.remaining(secs(500)), 0);
}

fn drain_of(total: usize) -> AckDrain {
    AckDrain {
        total,
        deadline: secs(30),
    }
}

#[test]
fn failed_acknowledgments_fail_the_batch() {
    let endpoint = SolaceOutputEndpoint::new(output_config(OutputDeliveryMode::Persistent), 0)
        .ok()
        .unwrap();
    assert_eq!(
        endpoint
            .drain_pending_acks(
                &drain_of(2),
                &vec![AckOutcome::Rejected("SpoolOverQuota".into())]
            )
            .unwrap_err(),
        "broker rejected persistent publish: SpoolOverQuota"
    );
    assert_eq!(
        endpoint
            .drain_pending_acks(&drain_of(1), &vec![AckOutcome::Closed])
            .unwrap_err(),
        "Solace ack channel closed before broker acknowledgment"
    );
    assert_eq!(
        endpoint
            .drain_pending_acks(&drain_of(5), &vec![AckOutcome::Acked, AckOutcome::TimedOut])
            .unwrap_err(),
        "broker did not acknowledge 4 of 5 in-flight persistent publish(es) within 30s"
    );
    assert!(endpoint.drain_pending_acks(&drain_of(0), &Vec::new()).is_ok());
}

#[test]
fn output_recovers_from_session_loss() {
    let mut endpoint = SolaceOutputEndpoint::new(output_config(OutputDeliveryMode::Persistent), 0)
        .ok()
        .unwrap();
    endpoint.register();
    endpoint.finish_rebuild(0, Ok(())).unwrap();
    endpoint.record_publish(0);

    // The drainer sees the session go down and poisons it.
    let action = drain_session_event(SessionEvent::DownError);
    assert!(action.poison);
    assert!(!endpoint.is_healthy(action.poison));

    // The next publish rebuilds it; the batch that raced the failure fails.
    let lost = endpoint.begin_rebuild();
    assert_eq!(lost, 1);
    assert_eq!(
        endpoint.finish_rebuild(lost, Ok(())).unwrap_err(),
        "Solace session was rebuilt with 1 unacknowledged persistent publish(es); their delivery is unconfirmed"
    );
    assert!(endpoint.is_healthy(false));
    assert_eq!(endpoint.begin_drain(0).total, 0);

    // A session that cannot be built leaves the endpoint disconnected.
    let lost = endpoint.begin_rebuild();
    assert_eq!(
        endpoint
            .finish_rebuild(lost, Err("Solace session: down".into()))
            .unwrap_err(),
        "Solace session: down"
    );
    assert!(!endpoint.is_healthy(false));
}

#[test]
fn output_dedup_window_conflates() {
    let mut config = output_config(OutputDeliveryMode::Persistent);
    config.dedup_window_ms = Some(2000);
    let mut endpoint = SolaceOutputEndpoint::new(config, 0).ok().unwrap();
    let topic = endpoint.topic_for(b"{\"id\":1}");
    let start = secs(50);

    // First record publishes immediately; the next two conflate.
    assert!(endpoint.should_publish(&topic, b"{\"id\":1}", start));
    assert!(!endpoint.should_publish(&topic, b"{\"id\":2}", start));
    assert!(!endpoint.should_publish(&topic, b"{\"id\":3}", start));
    assert_eq!(endpoint.conflated(), 2);
    assert!(endpoint.take_expired(start).is_empty());

    // After the window, exactly one conflated message is due: the latest.
    let later = start + Duration::from_millis(2500).as_nanos();
    assert_eq!(
        endpoint.take_expired(later),
        vec![("feldera/test".to_string(), b"{\"id\":3}".to_vec())]
    );
    assert!(endpoint.take_expired(later + secs(1)).is_empty());
    assert!(endpoint.take_report().is_none());
}

#[test]
fn without_a_window_everything_is_published() {
    let mut endpoint = SolaceOutputEndpoint::new(output_config(OutputDeliveryMode::Direct), 0)
        .ok()
        .unwrap();
    for _ in 0..3 {
        assert!(endpoint.should_publish("t", b"1", 0));
    }
    assert!(endpoint.take_expired(secs(100)).is_empty());
    assert_eq!(endpoint.conflated(), 0);
    assert_eq!(endpoint.max_buffer_size_bytes(), 1024 * 1024);
    assert!(!endpoint.is_fault_tolerant());
}

#[test]
fn output_session_events_are_reported() {
    let report = |event| {
        let action = drain_session_event(event);
        (action.poison, action.report)
    };
    assert_eq!(
        report(SessionEvent::DownError),
        (
            true,
            Some((
                "Solace session down; rebuilding on the next publish".to_string(),
                "solace_output_down"
            ))
        )
    );
    assert_eq!(
        report(SessionEvent::ConnectFailedError),
        (
            true,
            Some((
                "Solace connection failed; rebuilding on the next publish".to_string(),
                "solace_output_connect_failed"
            ))
        )
    );
    assert_eq!(
        report(SessionEvent::RejectedMsgError),
        (
            false,
            Some((
                "Solace rejected a published message".to_string(),
                "solace_output_rejected"
            ))
        )
    );
    assert_eq!(report(SessionEvent::CanSend), (false, None));
}

#[test]
fn output_errors_name_what_failed() {
    assert_eq!(context_error("e"), "Solace context init: e");
    assert_eq!(session_error("e"), "Solace session: e");
    assert_eq!(message_error("e"), "message build: e");
    assert_eq!(publish_error("t", "e"), "publish to 't': e");
    let endpoint = SolaceOutputEndpoint::new(output_config(OutputDeliveryMode::Direct), 0)
        .ok()
        .unwrap();
    assert_eq!(
        endpoint.push_key().unwrap_err(),
        "Solace output transport does not support key-value pairs. This output endpoint was configured with a data format that produces outputs as key-value pairs; however the Solace transport does not support this representation."
    );
}
