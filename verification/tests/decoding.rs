use mlld::json::JsonValue;
use mlld::results::{analyze, execute_result_from_payload, extract_output};
use mlld::state_writes::{merge_state_writes, parse_state_write_event, StateWrite};

fn obj(fields: Vec<(&str, JsonValue)>) -> JsonValue {
    JsonValue::Obj(fields.into_iter().map(|(k, v)| (k.to_string(), v)).collect())
}

fn s(text: &str) -> JsonValue {
    JsonValue::Str(text.to_string())
}

#[test]
fn test_json_text_escapes_and_numbers() {
    let v = obj(vec![
        ("text", s("a\"b\\c\nd")),
        ("n", JsonValue::UInt(12345)),
        ("neg", JsonValue::NegInt(-7)),
        ("frac", JsonValue::NumText("1.5".to_string())),
        ("arr", JsonValue::Arr(vec![JsonValue::Null, JsonValue::Bool(false)])),
    ]);
    assert_eq!(
        mlld::json::to_json_text(&v),
        "{\"text\":\"a\\\"b\\\\c\\u000ad\",\"n\":12345,\"neg\":-7,\"frac\":1.5,\"arr\":[null,false]}"
    );
}

#[test]
fn test_extract_output_variants() {
    assert_eq!(extract_output(&obj(vec![("output", s("hello"))])), "hello");
    assert_eq!(extract_output(&obj(vec![("value", s("fallback"))])), "fallback");
    assert_eq!(extract_output(&obj(vec![("output", JsonValue::UInt(3))])), "3");
    assert_eq!(extract_output(&obj(vec![("other", s("x"))])), "");
}

#[test]
fn test_parse_state_write_event_shapes() {
    let good = obj(vec![
        ("type", s("state:write")),
        (
            "write",
            obj(vec![
                ("path", s("count")),
                ("value", JsonValue::UInt(2)),
                ("timestamp", s("now")),
            ]),
        ),
    ]);
    let w = parse_state_write_event(&good).expect("a state write");
    assert_eq!(w.path, "count");
    assert_eq!(w.timestamp, Some("now".to_string()));

    let wrong_type = obj(vec![("type", s("progress"))]);
    assert!(parse_state_write_event(&wrong_type).is_none());

    let no_path = obj(vec![("type", s("state:write")), ("write", obj(vec![]))]);
    assert!(parse_state_write_event(&no_path).is_none());

    // A write without a value defaults to null.
    let no_value = obj(vec![
        ("type", s("state:write")),
        ("write", obj(vec![("path", s("flag"))])),
    ]);
    let w = parse_state_write_event(&no_value).expect("a state write");
    assert!(mlld::json::json_eq(&w.value, &JsonValue::Null));
}

fn sw(path: &str, value: JsonValue) -> StateWrite {
    StateWrite { path: path.to_string(), value, timestamp: None }
}

#[test]
fn test_merge_state_writes_dedup_first_seen_wins() {
    let primary = vec![sw("a", JsonValue::UInt(1)), sw("b", JsonValue::UInt(2))];
    let secondary = vec![
        sw("a", JsonValue::UInt(1)),  // duplicate key, dropped
        sw("a", JsonValue::UInt(3)),  // same path, different value: kept
        sw("c", JsonValue::UInt(4)),
    ];
    let merged = merge_state_writes(primary, secondary);
    let keys: Vec<String> = merged
        .iter()
        .map(|w| format!("{}={}", w.path, mlld::json::to_json_text(&w.value)))
        .collect();
    assert_eq!(keys, vec!["a=1", "b=2", "a=3", "c=4"]);
}

#[test]
fn test_merge_state_writes_empty_sides() {
    let only = vec![sw("a", JsonValue::UInt(1)), sw("a", JsonValue::UInt(1))];
    // An empty secondary returns the primary untouched, duplicates and all.
    let merged = merge_state_writes(only, Vec::new());
    assert_eq!(merged.len(), 2);
    let merged = merge_state_writes(Vec::new(), vec![sw("z", JsonValue::Null)]);
    assert_eq!(merged.len(), 1);
    assert_eq!(merged[0].path, "z");
}

#[test]
fn test_execute_result_structured_decode() {
    let payload = obj(vec![
        ("id", JsonValue::UInt(5)),
        ("output", s("ran")),
        (
            "stateWrites",
            JsonValue::Arr(vec![obj(vec![("path", s("count")), ("value", JsonValue::UInt(1))])]),
        ),
        ("exports", obj(vec![("x", JsonValue::UInt(9))])),
    ]);
    let event_writes = vec![
        sw("count", JsonValue::UInt(1)),  // duplicate of the embedded one
        sw("flag", JsonValue::Bool(true)),
    ];
    let r = execute_result_from_payload(payload, event_writes);
    assert_eq!(r.output, "ran");
    // Embedded writes come first; duplicates from events are dropped.
    let paths: Vec<&str> = r.state_writes.iter().map(|w| w.path.as_str()).collect();
    assert_eq!(paths, vec!["count", "flag"]);
    assert_eq!(mlld::json::to_json_text(&r.exports), "{\"x\":9}");
    assert!(r.metrics.is_none());
    assert!(r.effects.is_empty());
}

#[test]
fn test_execute_result_fallback_wraps_raw_text() {
    // No string `output` member: the decode is non-fatal and wraps the raw
    // payload (id stripped) as plain text.
    let payload = obj(vec![("id", JsonValue::UInt(5)), ("weird", JsonValue::UInt(1))]);
    let r = execute_result_from_payload(payload, vec![sw("a", JsonValue::Null)]);
    assert_eq!(r.output, "{\"weird\":1}");
    assert_eq!(r.state_writes.len(), 1);
    assert_eq!(r.state_writes[0].path, "a");
    assert!(mlld::json::json_eq(&r.exports, &JsonValue::Null));
}

#[test]
fn test_analyze_decodes_report() {
    let report = obj(vec![
        ("id", JsonValue::UInt(2)),
        ("filepath", s("mod.mld")),
        ("valid", JsonValue::Bool(true)),
        (
            "executables",
            JsonValue::Arr(vec![obj(vec![
                ("name", s("run")),
                ("params", JsonValue::Arr(vec![s("x")])),
            ])]),
        ),
        ("exports", JsonValue::Arr(vec![s("run")])),
        (
            "imports",
            JsonValue::Arr(vec![obj(vec![("from", s("@config"))])]),
        ),
        (
            "guards",
            JsonValue::Arr(vec![obj(vec![("name", s("g")), ("timing", s("before"))])]),
        ),
        (
            "needs",
            obj(vec![("cmd", JsonValue::Arr(vec![s("git")]))]),
        ),
    ]);
    let a = analyze(&report).expect("report decodes");
    assert_eq!(a.filepath, "mod.mld");
    assert!(a.valid);
    assert!(a.errors.is_empty());
    assert_eq!(a.executables.len(), 1);
    assert_eq!(a.executables[0].name, "run");
    assert_eq!(a.executables[0].params, vec!["x".to_string()]);
    assert!(a.executables[0].labels.is_empty());
    assert_eq!(a.exports, vec!["run".to_string()]);
    assert_eq!(a.imports[0].from, "@config");
    assert_eq!(a.guards[0].timing, "before");
    assert_eq!(a.guards[0].label, None);
    let needs = a.needs.expect("needs decoded");
    assert_eq!(needs.cmd, vec!["git".to_string()]);
    assert!(needs.node.is_empty());
}

#[test]
fn test_analyze_with_errors_list() {
    let report = obj(vec![
        ("filepath", s("broken.mld")),
        ("valid", JsonValue::Bool(false)),
        (
            "errors",
            JsonValue::Arr(vec![obj(vec![
                ("message", s("unexpected token")),
                ("line", JsonValue::UInt(3)),
            ])]),
        ),
    ]);
    let a = analyze(&report).expect("report decodes");
    assert!(!a.valid);
    assert_eq!(a.errors.len(), 1);
    assert_eq!(a.errors[0].message, "unexpected token");
    assert_eq!(a.errors[0].line, Some(3));
    assert_eq!(a.errors[0].column, None);
}

#[test]
fn test_analyze_rejects_unexpected_shape() {
    let report = obj(vec![("valid", JsonValue::Bool(true))]);
    match analyze(&report) {
        Err(mlld::error::Error::Json(t)) => {
            assert_eq!(t, "analyze result has an unexpected shape")
        }
        _ => panic!("expected a JSON error"),
    }
}

#[test]
fn test_process_params_omit_absent_options() {
    let mut opts = mlld::protocol::ProcessOptions::default();
    opts.state = Some(obj(vec![("count", JsonValue::UInt(1))]));
    opts.mode = Some("markdown".to_string());
    let params = mlld::protocol::process_params("show \"hi\"", opts);
    assert_eq!(
        mlld::json::to_json_text(&params),
        "{\"script\":\"show \\\"hi\\\"\",\"state\":{\"count\":1},\"mode\":\"markdown\"}"
    );
}

#[test]
fn test_execute_params_order_and_payload() {
    let mut opts = mlld::protocol::ExecuteOptions::default();
    opts.allow_absolute_paths = Some(true);
    opts.mode = Some("strict".to_string());
    let params = mlld::protocol::execute_params(
        "file.mld",
        Some(obj(vec![("text", s("hello"))])),
        opts,
    );
    assert_eq!(
        mlld::json::to_json_text(&params),
        "{\"filepath\":\"file.mld\",\"payload\":{\"text\":\"hello\"},\"allowAbsolutePaths\":true,\"mode\":\"strict\"}"
    );
}
