use mlld::error::Error;
use mlld::json::JsonValue;
use mlld::protocol::{
    update_retry_step, update_state_precheck, AwaitState, AwaitStep, RecvOutcome, RequestHandle,
    RetryStep, TransportMessage, WaitStart,
};

fn state_write_event(path: &str, value: JsonValue) -> JsonValue {
    JsonValue::Obj(vec![
        ("id".to_string(), JsonValue::UInt(1)),
        ("type".to_string(), JsonValue::Str("state:write".to_string())),
        (
            "write".to_string(),
            JsonValue::Obj(vec![
                ("path".to_string(), JsonValue::Str(path.to_string())),
                ("value".to_string(), value),
            ]),
        ),
    ])
}

#[test]
fn test_await_accumulates_state_writes() {
    let mut st = AwaitState::new();
    let step = st.step(
        RecvOutcome::Message(TransportMessage::Event(state_write_event(
            "count",
            JsonValue::UInt(2),
        ))),
        None,
    );
    assert!(matches!(step, AwaitStep::Continue));
    // An event of another shape is ignored.
    let step = st.step(
        RecvOutcome::Message(TransportMessage::Event(JsonValue::Obj(vec![(
            "type".to_string(),
            JsonValue::Str("progress".to_string()),
        )]))),
        None,
    );
    assert!(matches!(step, AwaitStep::Continue));
    assert_eq!(st.state_writes.len(), 1);
    assert_eq!(st.state_writes[0].path, "count");
}

#[test]
fn test_await_result_success() {
    let mut st = AwaitState::new();
    let step = st.step(
        RecvOutcome::Message(TransportMessage::Result(JsonValue::Obj(vec![(
            "output".to_string(),
            JsonValue::Str("done".to_string()),
        )]))),
        Some(1000),
    );
    match step {
        AwaitStep::Done { payload } => {
            assert_eq!(mlld::json::to_json_text(&payload), "{\"output\":\"done\"}");
        }
        _ => panic!("expected Done"),
    }
}

#[test]
fn test_await_result_with_error_payload() {
    let mut st = AwaitState::new();
    let step = st.step(
        RecvOutcome::Message(TransportMessage::Result(JsonValue::Obj(vec![(
            "error".to_string(),
            JsonValue::Obj(vec![
                ("message".to_string(), JsonValue::Str("boom".to_string())),
                ("code".to_string(), JsonValue::Str("E1".to_string())),
            ]),
        )]))),
        None,
    );
    match step {
        AwaitStep::FailWorker { error } => match error {
            Error::Mlld { message, code } => {
                assert_eq!(message, "boom");
                assert_eq!(code, Some("E1".to_string()));
            }
            _ => panic!("expected a worker error"),
        },
        _ => panic!("expected FailWorker"),
    }
}

#[test]
fn test_await_error_payload_defaults() {
    let e = mlld::error::error_from_payload(&JsonValue::Obj(vec![]));
    match e {
        Error::Mlld { message, code } => {
            assert_eq!(message, "mlld request failed");
            assert_eq!(code, None);
        }
        _ => panic!("expected a worker error"),
    }
}

#[test]
fn test_await_closed_and_timeout() {
    let mut st = AwaitState::new();
    let step = st.step(
        RecvOutcome::Message(TransportMessage::Closed("worker went away".to_string())),
        None,
    );
    match step {
        AwaitStep::FailClosed { reason } => assert_eq!(reason, "worker went away"),
        _ => panic!("expected FailClosed"),
    }
    let step = st.step(RecvOutcome::TimedOut, Some(1500));
    match step {
        AwaitStep::FailTimeout { limit_ms } => assert_eq!(limit_ms, 1500),
        _ => panic!("expected FailTimeout"),
    }
    let step = st.step(RecvOutcome::Disconnected, None);
    assert!(matches!(step, AwaitStep::FailDisconnected));
}

#[test]
fn test_wait_twice_returns_identical_result() {
    let mut handle = RequestHandle::new(3, Some(1000));
    match handle.begin_wait() {
        WaitStart::Receive => {}
        _ => panic!("first wait should consume the receiver"),
    }
    let payload = JsonValue::Obj(vec![("output".to_string(), JsonValue::Str("hi".to_string()))]);
    let writes = vec![mlld::state_writes::StateWrite {
        path: "count".to_string(),
        value: JsonValue::UInt(2),
        timestamp: None,
    }];
    handle.store_result(&payload, &writes);

    let mut texts = Vec::new();
    for _ in 0..2 {
        match handle.begin_wait() {
            WaitStart::Cached { payload, state_writes } => {
                assert_eq!(state_writes.len(), 1);
                assert_eq!(state_writes[0].path, "count");
                texts.push(mlld::json::to_json_text(&payload));
            }
            _ => panic!("resolved handle should answer from its cache"),
        }
    }
    assert_eq!(texts[0], texts[1]);
    assert_eq!(texts[0], "{\"output\":\"hi\"}");
}

#[test]
fn test_second_concurrent_wait_is_distinct_error() {
    let mut handle = RequestHandle::new(3, None);
    assert!(matches!(handle.begin_wait(), WaitStart::Receive));
    assert!(matches!(handle.begin_wait(), WaitStart::AlreadyAwaited));
    let e = mlld::protocol::already_awaited_error();
    assert_eq!(e.message_text(), "transport error: request handle already awaited");
}

#[test]
fn test_update_state_retries_until_deadline() {
    let not_found = Error::Mlld {
        message: "no such request".to_string(),
        code: Some("REQUEST_NOT_FOUND".to_string()),
    };
    // Before the deadline the race is absorbed.
    match update_retry_step(Err(not_found), 42, 100, 2000) {
        RetryStep::Sleep => {}
        _ => panic!("expected a sleep-and-retry"),
    }
    // A success at a later attempt completes the call.
    match update_retry_step(Ok(JsonValue::Null), 42, 150, 2000) {
        RetryStep::Done => {}
        _ => panic!("expected completion"),
    }
}

#[test]
fn test_update_state_fails_not_found_at_deadline() {
    let not_found = Error::Mlld {
        message: "no such request".to_string(),
        code: Some("REQUEST_NOT_FOUND".to_string()),
    };
    match update_retry_step(Err(not_found), 42, 2000, 2000) {
        RetryStep::Fail(Error::Mlld { message, code }) => {
            assert_eq!(message, "No active request for id 42");
            assert_eq!(code, Some("REQUEST_NOT_FOUND".to_string()));
        }
        _ => panic!("expected the deterministic not-found failure"),
    }
}

#[test]
fn test_update_state_other_errors_fail_at_once() {
    let other = Error::Transport("pipe broke".to_string());
    match update_retry_step(Err(other), 42, 0, 2000) {
        RetryStep::Fail(Error::Transport(t)) => assert_eq!(t, "pipe broke"),
        _ => panic!("expected the error to pass through"),
    }
}

#[test]
fn test_update_state_blank_path_rejected() {
    match update_state_precheck("   ") {
        Some(Error::Transport(t)) => assert_eq!(t, "state update path is required"),
        _ => panic!("expected a validation failure"),
    }
    assert!(update_state_precheck("count").is_none());
}

#[test]
fn test_error_messages_render() {
    assert_eq!(
        Error::Timeout(1500).message_text(),
        "timeout after 1500ms"
    );
    assert_eq!(
        Error::Mlld { message: "bad".to_string(), code: None }.message_text(),
        "mlld error: bad"
    );
    assert_eq!(Error::Io("pipe".to_string()).message_text(), "IO error: pipe");
    assert_eq!(Error::Json("eof".to_string()).message_text(), "JSON error: eof");
}

#[test]
fn test_state_update_params_wire_text() {
    let params = mlld::protocol::state_update_params(7, "exit", JsonValue::Bool(true));
    assert_eq!(
        mlld::json::to_json_text(&params),
        "{\"requestId\":7,\"path\":\"exit\",\"value\":true}"
    );
}

#[test]
fn test_event_then_result_pipeline_yields_state_write() {
    // The client-side half of a run that increments an injected counter:
    // the worker emits a state write for `count`, then the terminal result.
    let mut reg = mlld::registry::Registry::new();
    reg.register(1);
    let mut st = AwaitState::new();
    let mut outcome: Option<AwaitStep> = None;
    let lines = [
        "{\"event\":{\"id\":1,\"type\":\"state:write\",\"write\":{\"path\":\"count\",\"value\":2}}}",
        "{\"result\":{\"id\":1,\"output\":\"count=2\"}}",
    ];
    for line in lines {
        for d in reg.route_line(line) {
            let message = match d {
                mlld::registry::Delivery::Event { payload, .. } => TransportMessage::Event(payload),
                mlld::registry::Delivery::Result { payload, .. } => {
                    TransportMessage::Result(payload)
                }
                mlld::registry::Delivery::Closed { reason, .. } => TransportMessage::Closed(reason),
            };
            match st.step(RecvOutcome::Message(message), None) {
                AwaitStep::Continue => {}
                other => outcome = Some(other),
            }
        }
    }
    match outcome {
        Some(AwaitStep::Done { payload }) => {
            let result = mlld::results::execute_result_from_payload(payload, st.state_writes);
            assert!(result.output.contains("count=2"));
            let write = result
                .state_writes
                .iter()
                .find(|w| w.path == "count")
                .expect("run writes count");
            assert!(mlld::json::json_eq(&write.value, &JsonValue::UInt(2)));
        }
        _ => panic!("expected the run to complete"),
    }
}
