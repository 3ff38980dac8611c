use mlld::registry::{Delivery, Registry};

fn pending_ids(r: &Registry) -> Vec<u64> {
    r.ids.clone()
}

#[test]
fn test_result_routed_and_entry_removed() {
    let mut reg = Registry::new();
    reg.register(1);
    reg.register(2);
    let dels = reg.route_line("{\"result\":{\"id\":1,\"output\":\"done\"}}");
    assert_eq!(dels.len(), 1);
    match &dels[0] {
        Delivery::Result { id, payload } => {
            assert_eq!(*id, 1);
            assert_eq!(mlld::json::to_json_text(payload), "{\"id\":1,\"output\":\"done\"}");
        }
        other => panic!("expected a Result delivery, got {:?}", discriminant_name(other)),
    }
    assert_eq!(pending_ids(&reg), vec![2]);
}

fn discriminant_name(d: &Delivery) -> &'static str {
    match d {
        Delivery::Event { .. } => "Event",
        Delivery::Result { .. } => "Result",
        Delivery::Closed { .. } => "Closed",
    }
}

#[test]
fn test_event_routed_without_removal() {
    let mut reg = Registry::new();
    reg.register(4);
    let dels = reg.route_line("{\"event\":{\"id\":4,\"type\":\"progress\"}}");
    assert_eq!(dels.len(), 1);
    match &dels[0] {
        Delivery::Event { id, .. } => assert_eq!(*id, 4),
        other => panic!("expected an Event delivery, got {:?}", discriminant_name(other)),
    }
    assert_eq!(pending_ids(&reg), vec![4]);
}

#[test]
fn test_numeric_string_id_accepted() {
    let mut reg = Registry::new();
    reg.register(9);
    let dels = reg.route_line("{\"result\":{\"id\":\"9\"}}");
    assert_eq!(dels.len(), 1);
    match &dels[0] {
        Delivery::Result { id, .. } => assert_eq!(*id, 9),
        other => panic!("expected a Result delivery, got {:?}", discriminant_name(other)),
    }
    assert!(pending_ids(&reg).is_empty());
}

#[test]
fn test_unknown_id_dropped_silently() {
    let mut reg = Registry::new();
    reg.register(1);
    let dels = reg.route_line("{\"result\":{\"id\":99}}");
    assert!(dels.is_empty());
    assert_eq!(pending_ids(&reg), vec![1]);
}

#[test]
fn test_blank_line_skipped() {
    let mut reg = Registry::new();
    reg.register(1);
    let dels = reg.route_line("   \t  ");
    assert!(dels.is_empty());
    assert_eq!(pending_ids(&reg), vec![1]);
}

#[test]
fn test_malformed_line_notifies_all_pending() {
    let mut reg = Registry::new();
    reg.register(1);
    reg.register(2);
    let dels = reg.route_line("this is not json");
    assert_eq!(dels.len(), 2);
    let mut ids = Vec::new();
    for d in &dels {
        match d {
            Delivery::Closed { id, reason } => {
                assert!(reason.starts_with("invalid live response: "));
                ids.push(*id);
            }
            other => panic!("expected a Closed delivery, got {:?}", discriminant_name(other)),
        }
    }
    assert_eq!(ids, vec![1, 2]);
    assert!(pending_ids(&reg).is_empty());
}

#[test]
fn test_reader_survives_malformed_line() {
    let mut reg = Registry::new();
    reg.register(1);
    let dels = reg.route_line("{broken");
    assert_eq!(dels.len(), 1);
    // The registry was cleared, but routing still works for a new request.
    reg.register(2);
    let dels = reg.route_line("{\"result\":{\"id\":2,\"output\":\"ok\"}}");
    assert_eq!(dels.len(), 1);
    match &dels[0] {
        Delivery::Result { id, .. } => assert_eq!(*id, 2),
        other => panic!("expected a Result delivery, got {:?}", discriminant_name(other)),
    }
    assert!(pending_ids(&reg).is_empty());
}

#[test]
fn test_cancel_cleanup_leaves_other_request_alone() {
    let mut reg = Registry::new();
    reg.register(10);
    reg.register(11);
    // Timing out request 10 removes only its entry.
    reg.remove(10);
    assert_eq!(pending_ids(&reg), vec![11]);
    // A late result for the removed id is undeliverable and silently dropped.
    let dels = reg.route_line("{\"result\":{\"id\":10}}");
    assert!(dels.is_empty());
    // Request 11 still completes normally.
    let dels = reg.route_line("{\"result\":{\"id\":11,\"output\":\"fine\"}}");
    assert_eq!(dels.len(), 1);
    match &dels[0] {
        Delivery::Result { id, .. } => assert_eq!(*id, 11),
        other => panic!("expected a Result delivery, got {:?}", discriminant_name(other)),
    }
}

#[test]
fn test_stream_end_fans_out_closed_once_each() {
    let mut reg = Registry::new();
    reg.register(1);
    reg.register(2);
    reg.register(3);
    let dels = reg.on_stream_end("  worker crashed\nbad state  \n");
    assert_eq!(dels.len(), 3);
    let mut seen = Vec::new();
    for d in &dels {
        match d {
            Delivery::Closed { id, reason } => {
                assert_eq!(reason, "worker crashed\nbad state");
                assert!(!seen.contains(id), "id {} notified twice", id);
                seen.push(*id);
            }
            other => panic!("expected a Closed delivery, got {:?}", discriminant_name(other)),
        }
    }
    assert_eq!(seen, vec![1, 2, 3]);
    assert!(pending_ids(&reg).is_empty());
}

#[test]
fn test_stream_end_default_reason() {
    let mut reg = Registry::new();
    reg.register(5);
    let dels = reg.on_stream_end("   ");
    assert_eq!(dels.len(), 1);
    match &dels[0] {
        Delivery::Closed { reason, .. } => assert_eq!(reason, "live transport closed"),
        other => panic!("expected a Closed delivery, got {:?}", discriminant_name(other)),
    }
}

#[test]
fn test_stderr_accumulates_newline_joined() {
    let mut buf = String::new();
    mlld::registry::append_stderr_line(&mut buf, "first");
    mlld::registry::append_stderr_line(&mut buf, "second");
    assert_eq!(buf, "first\nsecond");
}

#[test]
fn test_parse_u64_forms() {
    assert_eq!(mlld::json::parse_u64("42"), Some(42));
    assert_eq!(mlld::json::parse_u64("+42"), Some(42));
    assert_eq!(mlld::json::parse_u64("0"), Some(0));
    assert_eq!(mlld::json::parse_u64("18446744073709551615"), Some(u64::MAX));
    assert_eq!(mlld::json::parse_u64("18446744073709551616"), None);
    assert_eq!(mlld::json::parse_u64(""), None);
    assert_eq!(mlld::json::parse_u64("+"), None);
    assert_eq!(mlld::json::parse_u64("-3"), None);
    assert_eq!(mlld::json::parse_u64("4x2"), None);
    assert_eq!(mlld::json::parse_u64(" 42"), None);
}
