use feldera_connectors::solace::acks::{acks_ready, take_all_acks, PendingAcks};
use feldera_connectors::solace::config::SolaceInputConfig;
use feldera_connectors::solace::dedup::RgmidCache;
use feldera_connectors::solace::events::{
    classify_connect_failure, connect_task_failure, drain_flow_events, flow_bind_failure,
    is_fatal_error_text, is_fatal_lower_case, is_flow_failure, is_session_failure,
    session_connect_failure, session_event_failure, ConnectorError, DrainStep, FlowEvent,
    FlowPoll, SessionEvent,
};
use feldera_connectors::solace::input::{
    context_failure, flow_request_failure, AfterAttempt, Attempt, Command, CompletionSource,
    FlowRequest, FtModel, InputTask, Resume, SolaceInputEndpoint, State, Wait,
};
use feldera_connectors::solace::message::{
    build_metadata, dispose_parsed, process_message, ConnectorMetadata, InboundMessage,
    MetadataValue, MsgDisposition, Screening,
};

fn make_config() -> SolaceInputConfig {
    SolaceInputConfig {
        host: "localhost".into(),
        port: 55555,
        vpn: "default".into(),
        username: "user".into(),
        password: "pass".into(),
        queue: "test-q".into(),
        window_size: 255,
        topic_pattern: None,
        ..Default::default()
    }
}

#[test]
fn fault_tolerance_is_none() {
    let ep = SolaceInputEndpoint::new(make_config()).expect("valid config");
    assert_eq!(ep.fault_tolerance(), None::<FtModel>);
}

#[test]
fn invalid_configurations_are_refused() {
    let config = SolaceInputConfig {
        queue: "".into(),
        ..make_config()
    };
    assert_eq!(
        SolaceInputEndpoint::new(config).unwrap_err(),
        "invalid Solace input config: queue must not be empty"
    );
    let endpoint = SolaceInputEndpoint::new(make_config()).unwrap();
    assert_eq!(endpoint.config().queue, "test-q");
}

#[test]
fn state_eq_and_ne() {
    assert_eq!(State::Paused, State::Paused);
    assert_ne!(State::Running, State::Done);
}

#[test]
fn state_debug() {
    assert_eq!(format!("{:?}", State::Paused), "Paused");
    assert_eq!(format!("{:?}", State::Running), "Running");
    assert_eq!(format!("{:?}", State::Done), "Done");
}

#[test]
fn rgmid_cache_detects_duplicates() {
    let mut cache = RgmidCache::new(4);
    assert!(cache.insert("a"), "first sight is new");
    assert!(!cache.insert("a"), "second sight is a duplicate");
    assert!(cache.insert("b"));
    assert!(!cache.insert("b"));
}

#[test]
fn rgmid_cache_evicts_fifo() {
    let mut cache = RgmidCache::new(2);
    assert!(cache.insert("a"));
    assert!(cache.insert("b"));
    // Inserting "c" evicts "a" (the oldest).
    assert!(cache.insert("c"));
    assert!(cache.insert("a"), "evicted id is treated as new again");
    // "b" is still present.
    assert!(!cache.insert("b"));
}

#[test]
fn rgmid_cache_zero_cap_disables_dedup() {
    let mut cache = RgmidCache::new(0);
    assert!(cache.insert("a"));
    assert!(cache.insert("a"), "dedup disabled: every message is new");
}

#[test]
fn rgmid_cache_holds_the_newest() {
    let mut cache = RgmidCache::new(3);
    for id in ["a", "b", "a", "c", "d"] {
        cache.insert(id);
    }
    // "a" was recorded first and is the one that had to go.
    for id in ["b", "c", "d"] {
        assert!(!cache.insert(id));
    }
    assert!(cache.insert("a"));
}

#[test]
fn rgmid_cache_remembers_what_came_back() {
    let mut cache = RgmidCache::new(2);
    for id in ["a", "b", "c"] {
        assert!(cache.insert(id));
    }
    assert!(cache.insert("a"));
    assert!(!cache.insert("a"), "a second return is recognized");
    for id in ["b", "c"] {
        assert!(!cache.insert(id), "a return displaces nothing");
    }
    // Two younger messages push "b" and "c" out of the window, and "a" out of
    // memory.
    assert!(cache.insert("d"));
    assert!(cache.insert("e"));
    assert!(cache.insert("a"));
}

#[test]
fn acks_ready_releases_only_completed_steps() {
    let mut pending: PendingAcks = PendingAcks::new();
    pending.push_back((0, vec![10, 11]));
    pending.push_back((1, vec![12]));
    pending.push_back((2, vec![13]));

    // completed == 0: no step is done yet (step 0 done when completed > 0).
    assert!(acks_ready(&mut pending, 0).is_empty());
    // completed == 1: step 0 is done.
    assert_eq!(acks_ready(&mut pending, 1), vec![10, 11]);
    // completed == 3: steps 1 and 2 are done, in order.
    assert_eq!(acks_ready(&mut pending, 3), vec![12, 13]);
    assert!(pending.is_empty());
}

#[test]
fn acks_ready_is_monotonic_across_calls() {
    let mut pending: PendingAcks = PendingAcks::new();
    pending.push_back((5, vec![1]));
    // A stale, lower completion count must not release a later step.
    assert!(acks_ready(&mut pending, 5).is_empty());
    assert_eq!(acks_ready(&mut pending, 6), vec![1]);
}

#[test]
fn taking_all_acks_ignores_their_steps() {
    let mut pending: PendingAcks = PendingAcks::new();
    pending.push_back((7, vec![1, 2]));
    pending.push_back((9, vec![3]));
    assert_eq!(take_all_acks(&mut pending), vec![1, 2, 3]);
    assert!(pending.is_empty());
}

#[test]
fn releasing_in_two_steps_is_releasing_at_once() {
    let entries = || {
        let mut pending: PendingAcks = PendingAcks::new();
        pending.push_back((0, vec![1]));
        pending.push_back((3, vec![2]));
        pending.push_back((4, vec![3]));
        pending
    };
    let mut stepwise = entries();
    let mut released = acks_ready(&mut stepwise, 2);
    released.extend(acks_ready(&mut stepwise, 4));
    let mut at_once = entries();
    assert_eq!(released, acks_ready(&mut at_once, 4));
    assert_eq!(stepwise, at_once);
}

#[test]
fn fatal_error_texts_are_recognized() {
    // Case-insensitive substring matches on SDK error strings.
    assert!(is_fatal_error_text("subcode: 3 string: Login Failure"));
    assert!(is_fatal_error_text("401 Unauthorized"));
    assert!(is_fatal_error_text("Client ACL Denied"));
    assert!(is_fatal_error_text("Unknown Queue"));
    assert!(is_fatal_error_text("queue not found: my-queue"));
}

#[test]
fn ambiguous_error_texts_default_to_retryable() {
    assert!(!is_fatal_error_text("Connection refused"));
    assert!(!is_fatal_error_text("Unresolved host"));
    assert!(!is_fatal_error_text("Timeout while connecting"));
    assert!(!is_fatal_error_text(""));
}

#[test]
fn lower_case_markers_are_matched_as_they_are() {
    assert!(is_fatal_lower_case("acl denied"));
    assert!(!is_fatal_lower_case("ACL DENIED"));
    assert!(is_fatal_error_text("ACL DENIED"));
}

#[test]
fn classify_connect_failure_splits_fatal_and_retryable() {
    assert!(matches!(
        classify_connect_failure("session connect: Login Failure".to_string()),
        ConnectorError::Fatal(_)
    ));
    assert!(matches!(
        classify_connect_failure("session connect: Unresolved host".to_string()),
        ConnectorError::Retryable(_)
    ));
}

#[test]
fn connection_failures_name_what_failed() {
    assert!(matches!(
        session_connect_failure("Unresolved host"),
        ConnectorError::Retryable(m) if m == "session connect: Unresolved host"
    ));
    assert!(matches!(
        flow_bind_failure("q1", "Unknown Queue"),
        ConnectorError::Fatal(m) if m == "flow bind to queue q1: Unknown Queue"
    ));
    assert!(matches!(
        connect_task_failure("login failure"),
        ConnectorError::Retryable(m) if m == "connect task failed: login failure"
    ));
}

#[test]
fn flow_failure_events_trigger_reconnect() {
    assert!(is_flow_failure(FlowEvent::DownError));
    assert!(is_flow_failure(FlowEvent::BindFailedError));
    assert!(is_flow_failure(FlowEvent::SessionDown));
    // The SDK handles these itself; they must not tear the flow down.
    assert!(!is_flow_failure(FlowEvent::UpNotice));
    assert!(!is_flow_failure(FlowEvent::Reconnecting));
    assert!(!is_flow_failure(FlowEvent::Reconnected));
    assert!(!is_flow_failure(FlowEvent::Active));
    assert!(!is_flow_failure(FlowEvent::Inactive));
}

#[test]
fn session_failure_events_trigger_reconnect() {
    assert!(is_session_failure(SessionEvent::DownError));
    assert!(is_session_failure(SessionEvent::ConnectFailedError));
    // Blip-handling and publish-side events must not tear the session down.
    assert!(!is_session_failure(SessionEvent::UpNotice));
    assert!(!is_session_failure(SessionEvent::ReconnectingNotice));
    assert!(!is_session_failure(SessionEvent::ReconnectedNotice));
    assert!(!is_session_failure(SessionEvent::Acknowledgement));
    assert!(!is_session_failure(SessionEvent::RejectedMsgError));
}

#[test]
fn buffered_flow_events_are_drained() {
    assert!(matches!(
        drain_flow_events(FlowPoll::Event(FlowEvent::Reconnected), "Reconnected"),
        DrainStep::More
    ));
    assert!(matches!(
        drain_flow_events(FlowPoll::Empty, ""),
        DrainStep::Healthy
    ));
    assert!(matches!(
        drain_flow_events(FlowPoll::Event(FlowEvent::DownError), "DownError"),
        DrainStep::Lost(m) if m == "flow failure event: DownError"
    ));
    assert!(matches!(
        drain_flow_events(FlowPoll::Disconnected, ""),
        DrainStep::Lost(m) if m == "flow event channel closed"
    ));
}

#[test]
fn session_events_can_end_the_connection() {
    assert_eq!(
        session_event_failure(Some(SessionEvent::DownError), "DownError").as_deref(),
        Some("session failure event: DownError")
    );
    assert_eq!(
        session_event_failure(Some(SessionEvent::UpNotice), "UpNotice"),
        None
    );
    assert_eq!(
        session_event_failure(None, "").as_deref(),
        Some("session event channel closed")
    );
}

#[test]
fn the_checkpoint_watcher_is_preferred() {
    assert_eq!(
        CompletionSource::from_consumer(true, true),
        Some(CompletionSource::Checkpoint)
    );
    assert_eq!(
        CompletionSource::from_consumer(false, true),
        Some(CompletionSource::Completion)
    );
    assert_eq!(CompletionSource::from_consumer(false, false), None);
}

fn secs(n: u64) -> u128 {
    n as u128 * 1_000_000_000
}

fn connected_task(source: Option<CompletionSource>) -> InputTask {
    let mut task = InputTask::new(&make_config(), source, 0);
    assert_eq!(task.next_wait(), Wait::Retry { due: 0 });
    assert!(!task.must_start_flow());
    assert!(matches!(
        task.finish_attempt(0, Attempt::Connected, 1),
        AfterAttempt::Proceed
    ));
    assert_eq!(
        task.handle_non_queue_command(Command::Extend),
        FlowRequest::Start
    );
    assert_eq!(task.next_wait(), Wait::Events { messages: true });
    task
}

#[test]
fn input_end_to_end_acks_all_messages() {
    // Without a watcher every message is acknowledged on hand-off.
    let mut task = connected_task(None);
    let mut acked = Vec::new();
    for batch in 0..10u64 {
        let reply = task.handle_queue_command(vec![batch], None);
        assert_eq!(reply.resume, Resume::Seek);
        acked.extend(reply.acks);
    }
    assert_eq!(acked, (0..10).collect::<Vec<u64>>());
    assert_eq!(task.pending_batches(), 0);
    assert_eq!(
        task.handle_non_queue_command(Command::Disconnect),
        FlowRequest::StopAndForget
    );
    assert_eq!(task.next_wait(), Wait::Exit);
}

#[test]
fn input_pause_resume_no_loss() {
    let mut task = connected_task(None);
    assert_eq!(
        task.handle_non_queue_command(Command::Pause),
        FlowRequest::Stop
    );
    assert_eq!(task.state(), State::Paused);
    assert_eq!(task.next_wait(), Wait::Events { messages: false });
    // The controller goes on flushing while the endpoint is paused.
    assert_eq!(task.handle_queue_command(vec![1], None).acks, vec![1]);
    assert_eq!(
        task.handle_non_queue_command(Command::Extend),
        FlowRequest::Start
    );
    assert_eq!(task.next_wait(), Wait::Events { messages: true });
}

#[test]
fn input_recovers_from_flow_loss() {
    let mut task = connected_task(Some(CompletionSource::Completion));
    task.handle_queue_command(vec![1, 2], Some(0));
    assert_eq!(task.pending_batches(), 1);
    let report = task.lose_connection("flow failure event: DownError".to_string());
    assert!(!report.fatal);
    assert_eq!(report.message, "flow failure event: DownError");
    assert_eq!(report.tag, "solace-connection-lost");
    // The messages belong to the dead flow.
    assert_eq!(task.pending_batches(), 0);
    assert_eq!(task.next_wait(), Wait::TearDown);
    task.finish_teardown(secs(10));
    assert_eq!(task.next_wait(), Wait::Retry { due: secs(15) });
    assert_eq!(task.state(), State::Running);

    // A flush without a connection discards the acknowledgments.
    let reply = task.handle_queue_command(vec![3], Some(0));
    assert!(reply.acks.is_empty());
    assert_eq!(reply.discarded, 1);

    // The flow of the new connection has to be started.
    assert!(task.must_start_flow());
    assert!(matches!(
        task.finish_attempt(secs(15), Attempt::StartFailed, secs(16)),
        AfterAttempt::TearDownAndRetry
    ));
    assert_eq!(task.next_wait(), Wait::TearDown);
    task.finish_teardown(secs(17));
    assert_eq!(task.next_wait(), Wait::Retry { due: secs(22) });
    task.finish_attempt(secs(22), Attempt::Connected, secs(23));
    assert_eq!(task.next_wait(), Wait::Events { messages: true });
    task.handle_queue_command(vec![4], Some(1));
    assert_eq!(task.ack_completed(2), vec![4]);
}

#[test]
fn input_defers_acks_until_step_completion() {
    let mut task = connected_task(CompletionSource::from_consumer(false, true));
    let reply = task.handle_queue_command(vec![1, 2], Some(0));
    assert_eq!(reply.resume, Resume::Seek);
    assert!(
        reply.acks.is_empty(),
        "acks must be withheld until step completion"
    );
    assert!(task.ack_completed(0).is_empty());
    assert_eq!(task.ack_completed(1), vec![1, 2]);
}

#[test]
fn input_acks_survive_frontier_jumps() {
    let mut task = connected_task(CompletionSource::from_consumer(false, true));
    task.handle_queue_command(vec![1], Some(0));
    assert_eq!(task.ack_completed(5), vec![1]);

    // Flushed when the count is already 5, so it waits for the sixth step.
    task.handle_queue_command(vec![2], Some(5));
    assert!(
        task.ack_completed(5).is_empty(),
        "a batch flushed after a frontier jump must wait for its own step"
    );
    assert_eq!(task.ack_completed(6), vec![2]);
}

#[test]
fn batches_wait_in_the_order_of_their_steps() {
    let mut task = connected_task(CompletionSource::from_consumer(false, true));
    for (ids, completed) in [(vec![1, 2], 0), (vec![3], 0), (vec![4], 2), (vec![5, 6], 7)] {
        let reply = task.handle_queue_command(ids, Some(completed));
        assert!(reply.acks.is_empty(), "nothing is acknowledged on hand-off");
    }
    assert!(task.ack_completed(0).is_empty());
    assert_eq!(task.ack_completed(1), vec![1, 2, 3]);
    task.handle_non_queue_command(Command::Pause);
    assert!(task.ack_completed(2).is_empty());
    assert_eq!(task.ack_completed(3), vec![4]);
    assert!(task.ack_completed(7).is_empty());
    assert_eq!(task.ack_completed(8), vec![5, 6]);
    assert!(task.ack_completed(9).is_empty(), "none is acknowledged twice");
}

#[test]
fn input_ft_acks_only_after_checkpoint() {
    let source = CompletionSource::from_consumer(true, true);
    let mut task = connected_task(source);
    let reply = task.handle_queue_command(vec![1, 2], Some(0));
    assert_eq!(reply.resume, Resume::Seek);
    // The checkpoint count still stands at 0.
    assert!(
        task.ack_completed(0).is_empty(),
        "strict mode must hold acks until a checkpoint covers the step"
    );
    assert_eq!(task.ack_completed(1), vec![1, 2]);
}

#[test]
fn input_ft_resume_after_crash_no_loss() {
    let mut task = connected_task(CompletionSource::from_consumer(true, true));
    task.handle_queue_command(vec![1], Some(0));
    assert_eq!(task.ack_completed(1), vec![1]);
    for id in 2..7 {
        task.handle_queue_command(vec![id], Some(1));
    }
    task.handle_non_queue_command(Command::Disconnect);
    assert!(
        task.shut_down(1).is_empty(),
        "the tail that no checkpoint covers stays on the broker"
    );
}

#[test]
fn a_clean_shutdown_acks_everything_without_checkpoints() {
    let mut task = connected_task(CompletionSource::from_consumer(false, true));
    task.handle_queue_command(vec![1, 2], Some(0));
    task.handle_queue_command(vec![3], Some(1));
    task.close();
    assert_eq!(task.next_wait(), Wait::Exit);
    assert_eq!(task.shut_down(0), vec![1, 2, 3]);
}

#[test]
fn a_strict_shutdown_acks_what_a_checkpoint_covers() {
    let mut task = connected_task(CompletionSource::from_consumer(true, true));
    task.handle_queue_command(vec![1, 2], Some(0));
    task.handle_queue_command(vec![3], Some(1));
    assert_eq!(task.shut_down(1), vec![1, 2]);
}

#[test]
fn a_lost_watcher_flushes_or_holds() {
    let mut task = connected_task(CompletionSource::from_consumer(false, true));
    task.handle_queue_command(vec![1], Some(3));
    assert_eq!(task.lose_source(3), vec![1]);
    assert_eq!(task.source(), None);
    // What is flushed afterwards waits for the shutdown.
    assert!(task.handle_queue_command(vec![2], Some(3)).acks.is_empty());
    assert_eq!(task.shut_down(3), vec![2]);

    let mut strict = connected_task(CompletionSource::from_consumer(true, true));
    strict.handle_queue_command(vec![1], Some(0));
    strict.handle_queue_command(vec![2], Some(4));
    assert_eq!(strict.lose_source(2), vec![1]);
    assert_eq!(strict.pending_batches(), 1);
}

#[test]
fn flushes_are_counted_without_a_count_of_steps() {
    let mut task = connected_task(Some(CompletionSource::Checkpoint));
    task.handle_queue_command(vec![], None);
    assert_eq!(task.step(), 1);
    assert_eq!(task.pending_batches(), 0, "an empty flush has nothing to ack");
    task.handle_queue_command(vec![8], None);
    assert!(task.ack_completed(1).is_empty());
    assert_eq!(task.ack_completed(2), vec![8]);
}

#[test]
fn a_pause_while_retrying_survives_the_reconnect() {
    let mut task = connected_task(None);
    task.lose_connection("flow message channel closed".to_string());
    assert_eq!(
        task.handle_non_queue_command(Command::Pause),
        FlowRequest::Nothing
    );
    assert!(!task.must_start_flow());
    task.finish_teardown(0);
    task.finish_attempt(secs(5), Attempt::Connected, secs(6));
    assert_eq!(task.next_wait(), Wait::Events { messages: false });
}

#[test]
fn unknown_commands_change_nothing() {
    let mut task = connected_task(None);
    assert_eq!(
        task.handle_non_queue_command(Command::Replay),
        FlowRequest::Nothing
    );
    assert_eq!(
        task.handle_non_queue_command(Command::Queue),
        FlowRequest::Nothing
    );
    assert_eq!(task.state(), State::Running);
}

#[test]
fn failed_attempts_are_reported() {
    let mut task = InputTask::new(&make_config(), None, 0);
    let refused = Attempt::Failed(ConnectorError::Retryable("refused".into()));
    match task.finish_attempt(0, refused, secs(2)) {
        AfterAttempt::Retry(report) => {
            assert!(!report.fatal);
            assert_eq!(report.message, "refused");
            assert_eq!(report.tag, "solace-connect");
        }
        other => panic!("unexpected {other:?}"),
    }
    assert_eq!(task.next_wait(), Wait::Retry { due: secs(7) });
    let fatal = Attempt::Failed(ConnectorError::Fatal("login failure".into()));
    match task.finish_attempt(secs(7), fatal, secs(8)) {
        AfterAttempt::Stop(report) => {
            assert!(report.fatal);
            assert_eq!(report.message, "login failure");
            assert_eq!(report.tag, "solace-connect");
        }
        other => panic!("unexpected {other:?}"),
    }
    assert_eq!(task.next_wait(), Wait::Exit);
    let report = context_failure("no context".into());
    assert!(report.fatal);
    assert_eq!(report.tag, "solace-context");
}

#[test]
fn connecting_is_tried_again_after_the_retry_interval() {
    let mut config = make_config();
    config.retry_interval_secs = 30;
    let mut task = InputTask::new(&config, None, secs(1));
    let mut now = secs(1);
    for _ in 0..100 {
        assert_eq!(task.next_wait(), Wait::Retry { due: now });
        let refused = Attempt::Failed(ConnectorError::Retryable("refused".into()));
        task.finish_attempt(now, refused, now + secs(2));
        // Neither a flush nor a command brings the next attempt forward.
        task.handle_queue_command(vec![], None);
        task.handle_non_queue_command(Command::Extend);
        now += secs(32);
        assert_eq!(task.retry_due(now - secs(30)), now);
    }
    task.handle_non_queue_command(Command::Disconnect);
    assert_eq!(task.next_wait(), Wait::Exit);
}

#[test]
fn failed_flow_requests_lose_the_connection() {
    assert_eq!(
        flow_request_failure(FlowRequest::Start, "e").as_deref(),
        Some("flow.start: e")
    );
    assert_eq!(
        flow_request_failure(FlowRequest::Stop, "e").as_deref(),
        Some("flow.stop: e")
    );
    assert_eq!(flow_request_failure(FlowRequest::StopAndForget, "e"), None);
    assert_eq!(flow_request_failure(FlowRequest::Nothing, "e"), None);
}

fn message(id: u64, rgmid: &str) -> InboundMessage {
    InboundMessage {
        msg_id: Ok(Some(id)),
        rgmid: Some(rgmid.to_string()),
        payload: Ok(Some(b"x".to_vec())),
        destination: Some("demo/events/us-east/order".to_string()),
        receive_ms: Some(1_700_000_000_000),
    }
}

#[test]
fn messages_are_screened() {
    let mut cache = RgmidCache::new(10);
    assert!(matches!(
        process_message(&message(1, "r1"), &mut cache),
        Screening::Parse(1)
    ));
    // A redelivery is acknowledged.
    assert!(matches!(
        process_message(&message(2, "r1"), &mut cache),
        Screening::Done {
            disposition: MsgDisposition::AckNow(2),
            report: None
        }
    ));
    // So is an empty message.
    let empty = InboundMessage {
        payload: Ok(None),
        ..message(3, "r3")
    };
    assert!(matches!(
        process_message(&empty, &mut cache),
        Screening::Done {
            disposition: MsgDisposition::AckNow(3),
            report: None
        }
    ));
    let unreadable = InboundMessage {
        payload: Err("bad".into()),
        ..message(4, "r4")
    };
    match process_message(&unreadable, &mut cache) {
        Screening::Done {
            disposition: MsgDisposition::AckNow(4),
            report: Some((e, tag)),
        } => {
            assert_eq!(e, "bad");
            assert_eq!(tag, "solace-payload");
        }
        other => panic!("unexpected {other:?}"),
    }
}

#[test]
fn messages_without_an_id_are_skipped() {
    let mut cache = RgmidCache::new(10);
    let anonymous = InboundMessage {
        msg_id: Ok(None),
        ..message(1, "r1")
    };
    assert!(matches!(
        process_message(&anonymous, &mut cache),
        Screening::Done {
            disposition: MsgDisposition::Skip,
            report: None
        }
    ));
    let broken = InboundMessage {
        msg_id: Err("no id".into()),
        ..message(1, "r1")
    };
    match process_message(&broken, &mut cache) {
        Screening::Done {
            disposition: MsgDisposition::Skip,
            report: Some((e, tag)),
        } => {
            assert_eq!(e, "no id");
            assert_eq!(tag, "solace-msg-id");
        }
        other => panic!("unexpected {other:?}"),
    }
    // Neither was recorded.
    assert!(cache.insert("r1"));
}

#[test]
fn unparseable_payloads_are_rejected_on_request() {
    assert_eq!(
        dispose_parsed(7, false, 1, true),
        MsgDisposition::SettleRejected(7)
    );
    assert_eq!(dispose_parsed(7, true, 1, true), MsgDisposition::Queued);
    assert_eq!(dispose_parsed(7, false, 1, false), MsgDisposition::Queued);
    assert_eq!(dispose_parsed(7, false, 0, true), MsgDisposition::Queued);
}

fn text(metadata: &ConnectorMetadata, name: &str) -> Option<String> {
    match metadata.get(name) {
        Some(MetadataValue::Text(s)) => Some(s.clone()),
        _ => None,
    }
}

#[test]
fn metadata_fields_are_opt_in() {
    let mut config = make_config();
    assert!(build_metadata(&message(1, "r"), &config).is_none());

    config.topic_pattern = Some("demo/events/{region}/{event_type}".into());
    let metadata = build_metadata(&message(1, "r"), &config).unwrap();
    assert_eq!(text(&metadata, "region").as_deref(), Some("us-east"));
    assert_eq!(text(&metadata, "event_type").as_deref(), Some("order"));
    assert!(metadata.get("solace_topic").is_none());
    assert!(metadata.get("broker_ts").is_none());

    config.include_topic = true;
    config.include_broker_timestamp = true;
    let metadata = build_metadata(&message(1, "r"), &config).unwrap();
    assert_eq!(
        text(&metadata, "solace_topic").as_deref(),
        Some("demo/events/us-east/order")
    );
    assert!(matches!(
        metadata.get("broker_ts"),
        Some(MetadataValue::Timestamp(1_700_000_000_000))
    ));
    assert_eq!(metadata.fields().len(), 4);
}

#[test]
fn metadata_needs_a_destination() {
    let mut config = make_config();
    config.include_broker_timestamp = true;
    let stray = InboundMessage {
        destination: None,
        ..message(1, "r")
    };
    assert!(build_metadata(&stray, &config).is_none());
    // A time that does not fit is left out.
    let late = InboundMessage {
        receive_ms: Some(u128::MAX),
        ..message(1, "r")
    };
    let metadata = build_metadata(&late, &config).unwrap();
    assert!(metadata.get("broker_ts").is_none());
}

#[test]
fn later_captures_take_the_place_of_earlier_fields() {
    let mut config = make_config();
    config.include_topic = true;
    config.topic_pattern = Some("{solace_topic}/{x}/{x}".into());
    let mut msg = message(1, "r");
    msg.destination = Some("a/b/c".into());
    let metadata = build_metadata(&msg, &config).unwrap();
    assert_eq!(text(&metadata, "solace_topic").as_deref(), Some("a"));
    assert_eq!(text(&metadata, "x").as_deref(), Some("c"));
}
