use codex_shim::events::SseEvent;
use codex_shim::gui::{
    browse_unavailable_message, build_defaults_response, non_empty_path, normalize_range,
    version_mentions_wsl, EventVisitor, LogBuffer,
};
use codex_shim::json::{to_json_text, JsonNumber, JsonValue};
use codex_shim::native_relay::{held_until_stored, NativeEnd, NativeRelay, NativeStep};
use codex_shim::setup::{gui_probe_report, ProbeOutcome};

fn to_json(v: &serde_json::Value) -> JsonValue {
    match v {
        serde_json::Value::Null => JsonValue::Null,
        serde_json::Value::Bool(b) => JsonValue::Bool(*b),
        serde_json::Value::Number(n) => {
            if let Some(u) = n.as_u64() {
                JsonValue::Number(JsonNumber::PosInt(u))
            } else if let Some(i) = n.as_i64() {
                JsonValue::Number(JsonNumber::NegInt(i))
            } else {
                JsonValue::Number(JsonNumber::Float(n.to_string()))
            }
        }
        serde_json::Value::String(s) => JsonValue::Str(s.clone()),
        serde_json::Value::Array(items) => JsonValue::Array(items.iter().map(to_json).collect()),
        serde_json::Value::Object(map) => {
            JsonValue::Object(map.iter().map(|(k, v)| (k.clone(), to_json(v))).collect())
        }
    }
}

fn j(text: &str) -> JsonValue {
    to_json(&serde_json::from_str::<serde_json::Value>(text).expect("valid JSON"))
}

#[test]
fn log_buffer_returns_entries_since_a_cursor() {
    let mut logs = LogBuffer::new();
    logs.push("INFO".into(), "first".into(), "10:00:00".into());
    logs.push("WARN".into(), "second".into(), "10:00:01".into());
    let all = logs.since(None);
    assert_eq!(all.next_cursor, 2);
    assert_eq!(all.entries.len(), 2);
    assert_eq!(all.entries[0].id, 0);
    assert_eq!(all.entries[1].message, "second");
    assert_eq!(all.entries[1].level, "WARN");
    let newer = logs.since(Some(1));
    assert_eq!(newer.entries.len(), 1);
    assert_eq!(newer.entries[0].timestamp, "10:00:01");
    logs.push("INFO".into(), "third".into(), "10:00:02".into());
    let after = logs.since(Some(all.next_cursor));
    assert_eq!(after.entries.len(), 1);
    assert_eq!(after.entries[0].message, "third");
    assert_eq!(after.entries[0].id, 2);
}

#[test]
fn log_buffer_keeps_the_last_two_thousand_entries() {
    let mut logs = LogBuffer::new();
    for i in 0..2005u32 {
        logs.push("INFO".into(), format!("line {i}"), "t".into());
    }
    let batch = logs.since(None);
    assert_eq!(batch.entries.len(), 2000);
    assert_eq!(batch.entries[0].id, 5);
    assert_eq!(batch.entries[1999].message, "line 2004");
    assert_eq!(batch.next_cursor, 2005);
}

#[test]
fn event_visitor_renders_message_then_fields() {
    let mut v = EventVisitor::new();
    v.record_value("status", "200".into());
    v.record_value("message", "Upstream response status".into());
    v.record_value("attempt", "1".into());
    assert_eq!(v.render(), "Upstream response status status=200 attempt=1");

    let mut only_message = EventVisitor::new();
    only_message.record_value("message", "hello".into());
    assert_eq!(only_message.render(), "hello");

    let mut only_fields = EventVisitor::new();
    only_fields.record_value("a", "1".into());
    only_fields.record_value("b", "2".into());
    assert_eq!(only_fields.render(), "a=1 b=2");
    assert_eq!(EventVisitor::new().render(), "");
}

#[test]
fn gui_small_decisions() {
    assert_eq!(normalize_range(15), 15);
    assert_eq!(normalize_range(1440), 1440);
    assert_eq!(normalize_range(30), 60);
    assert_eq!(non_empty_path("  /home/me  ").as_deref(), Some("/home/me"));
    assert_eq!(non_empty_path(" \t "), None);
    assert!(browse_unavailable_message(false).is_none());
    assert!(browse_unavailable_message(true).unwrap().contains("WSL"));
    assert!(version_mentions_wsl("Linux version 5.15.90.1-Microsoft-standard-WSL2"));
    assert!(version_mentions_wsl("linux 6.1 wsl"));
    assert!(!version_mentions_wsl("Linux version 6.8.0-generic"));
}

#[test]
fn defaults_report_missing_config_and_starter_template() {
    let defaults = build_defaults_response(Some("/home/tester"), Some("/work"), false, "server:\n", false);
    assert_eq!(defaults.default_config_path.as_deref(), Some("/home/tester/.codex-shim/config.yaml"));
    assert!(!defaults.default_config_exists);
    assert_eq!(defaults.default_codex_home.as_deref(), Some("/home/tester/.codex"));
    assert_eq!(defaults.current_directory.as_deref(), Some("/work"));
    assert_eq!(defaults.starter_config_text, "server:\n");
    assert!(defaults.browse_supported);
    assert!(defaults.browse_message.is_none());
    let no_home = build_defaults_response(None, None, true, "", true);
    assert!(no_home.default_config_path.is_none());
    assert!(!no_home.default_config_exists);
    assert!(!no_home.browse_supported);
}

#[test]
fn gui_probe_counts_usage_without_choices_and_notes_models() {
    let chat = ProbeOutcome::Replied(Some(j(r#"{"usage":{}}"#)));
    let responses = ProbeOutcome::Replied(None);
    let report = gui_probe_report("http://h", &chat, &responses, true);
    let text = to_json_text(&report);
    assert!(text.contains(r#""usage_in_stream_final":true"#));
    assert!(text.ends_with(r#""errors":[],"models":true}"#));
    let quiet = gui_probe_report("http://h", &ProbeOutcome::Failed("x".into()), &responses, false);
    assert!(to_json_text(&quiet).ends_with(r#""errors":["chat_completions: x"]}"#));
}

#[test]
fn native_relay_holds_the_completion_and_stores() {
    let mut relay = NativeRelay::new("resp_n".into(), "m".into(), 5);
    match relay.on_event(None) {
        NativeStep::Relay(events) => assert!(events.is_empty()),
        NativeStep::Fail(_) => panic!("unparseable data does not fail the stream"),
    }
    let created = j(r#"{"type":"response.created","response":{"id":"resp_n","created_at":5,"status":"in_progress","model":"m"}}"#);
    match relay.on_event(Some(&created)) {
        NativeStep::Relay(events) => assert_eq!(events.len(), 2),
        NativeStep::Fail(_) => panic!("created should relay"),
    }
    let text = j(r#"{"type":"response.output_text.delta","item_id":"msg_1","output_index":0,"content_index":0,"delta":"hi"}"#);
    match relay.on_event(Some(&text)) {
        NativeStep::Relay(events) => assert!(events.is_empty()),
        NativeStep::Fail(_) => panic!("delta should relay"),
    }
    assert!(!relay.saw_completed);
    let completed = j(r#"{"type":"response.completed","response":{"id":"resp_n","created_at":5,"status":"completed","model":"m"}}"#);
    match relay.on_event(Some(&completed)) {
        NativeStep::Relay(events) => {
            let held: Vec<&SseEvent> = events.iter().filter(|e| held_until_stored(e)).collect();
            assert_eq!(held.len(), 1);
            assert!(held_until_stored(events.last().unwrap()));
        }
        NativeStep::Fail(_) => panic!("completion should relay"),
    }
    assert!(relay.saw_completed);
    assert!(matches!(relay.on_end(), NativeEnd::Store));
}

#[test]
fn native_relay_fails_a_stream_that_never_completes() {
    let mut relay = NativeRelay::new("resp_n".into(), "m".into(), 5);
    let created = j(r#"{"type":"response.created","response":{"id":"resp_n","created_at":5,"status":"in_progress","model":"m"}}"#);
    let _ = relay.on_event(Some(&created));
    match relay.on_end() {
        NativeEnd::Fail(events) => {
            assert_eq!(events.len(), 2);
            assert_eq!(events[0].event_type(), "error");
            match &events[1] {
                SseEvent::Failed { response } => {
                    assert_eq!(response.id, "resp_n");
                    assert_eq!(
                        response.error.as_ref().map(|e| e.message.as_str()),
                        Some("native Responses stream ended before completion event")
                    );
                }
                _ => panic!("expected the failed response"),
            }
        }
        _ => panic!("an unfinished stream fails"),
    }
}
