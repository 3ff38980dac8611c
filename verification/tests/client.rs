use mlld::protocol::Client;

#[test]
fn test_client_creation() {
    let client = Client::new();
    assert_eq!(client.command, "mlld");
    assert_eq!(client.timeout, Some(30_000));
}

#[test]
fn test_client_builder() {
    let client = Client::new()
        .with_command("node")
        .with_command_args(vec!["./dist/cli.cjs".to_string()])
        .with_timeout(60_000)
        .with_working_dir("/tmp");

    assert_eq!(client.command, "node");
    assert_eq!(client.command_args, vec!["./dist/cli.cjs".to_string()]);
    assert_eq!(client.timeout, Some(60_000));
    assert_eq!(client.working_dir, Some("/tmp".to_string()));
}

#[test]
fn test_request_ids_strictly_increase_across_restarts() {
    let mut client = Client::new();
    let (id1, _) = client.start_request("process", mlld::json::JsonValue::Null);
    // A session restart touches no field of the client core, in particular
    // not the counter.
    let (id2, _) = client.start_request("process", mlld::json::JsonValue::Null);
    let (id3, _) = client.start_request("execute", mlld::json::JsonValue::Null);
    assert_eq!(id1, 1);
    assert_eq!(id2, 2);
    assert_eq!(id3, 3);
    assert!(id1 < id2 && id2 < id3);
}

#[test]
fn test_request_line_wire_text() {
    let mut client = Client::new();
    let params = mlld::json::JsonValue::Obj(vec![(
        "script".to_string(),
        mlld::json::JsonValue::Str("show \"hi\"".to_string()),
    )]);
    let (id, line) = client.start_request("process", params);
    assert_eq!(id, 1);
    assert_eq!(
        line,
        "{\"method\":\"process\",\"id\":1,\"params\":{\"script\":\"show \\\"hi\\\"\"}}"
    );
}

#[test]
fn test_cancel_line_wire_text() {
    assert_eq!(mlld::protocol::cancel_line(7), "{\"method\":\"cancel\",\"id\":7}");
}

#[test]
fn test_needs_respawn_decision() {
    assert!(mlld::protocol::needs_respawn(false, false));
    assert!(mlld::protocol::needs_respawn(false, true));
    assert!(mlld::protocol::needs_respawn(true, false));
    assert!(!mlld::protocol::needs_respawn(true, true));
}
