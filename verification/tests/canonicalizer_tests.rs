use codex_shim::canonicalizer::ResponsesCanonicalizer;
use codex_shim::events::{ApiError, OutputItem, SseEvent};
use codex_shim::json::{JsonNumber, JsonValue};

fn to_json(v: &serde_json::Value) -> JsonValue {
    match v {
        serde_json::Value::Null => JsonValue::Null,
        serde_json::Value::Bool(b) => JsonValue::Bool(*b),
        serde_json::Value::Number(n) => {
            if let Some(u) = n.as_u64() {
                JsonValue::Number(JsonNumber::PosInt(u))
            } else if let Some(i) = n.as_i64() {
                JsonValue::Number(JsonNumber::NegInt(i))
            } else {
                JsonValue::Number(JsonNumber::Float(n.to_string()))
            }
        }
        serde_json::Value::String(s) => JsonValue::Str(s.clone()),
        serde_json::Value::Array(items) => JsonValue::Array(items.iter().map(to_json).collect()),
        serde_json::Value::Object(map) => {
            JsonValue::Object(map.iter().map(|(k, v)| (k.clone(), to_json(v))).collect())
        }
    }
}

fn j(text: &str) -> JsonValue {
    to_json(&serde_json::from_str::<serde_json::Value>(text).expect("valid JSON"))
}

fn run(events: Vec<&str>) -> Result<Vec<SseEvent>, ApiError> {
    let mut canonicalizer = ResponsesCanonicalizer::new("resp_test".into(), "test-model".into(), 1);
    let mut out = Vec::new();
    for event in events {
        out.extend(canonicalizer.process_event(&j(event))?.events);
    }
    out.extend(canonicalizer.finish_stream()?);
    Ok(out)
}

fn event_types(events: &[SseEvent]) -> Vec<&'static str> {
    events
        .iter()
        .map(|event| match event {
            SseEvent::Created { .. } => "response.created",
            SseEvent::InProgress { .. } => "response.in_progress",
            SseEvent::OutputItemAdded { item, .. } => match item {
                OutputItem::Reasoning { .. } => "added.reasoning",
                OutputItem::Message { .. } => "added.message",
                OutputItem::FunctionCall { .. } => "added.function",
                OutputItem::CustomToolCall { .. } => "added.custom",
            },
            SseEvent::ReasoningSummaryTextDelta { .. } => "reasoning.delta",
            SseEvent::OutputTextDelta { .. } => "text.delta",
            SseEvent::FunctionCallArgumentsDone { .. } => "function.done",
            SseEvent::OutputItemDone { item, .. } => match item {
                OutputItem::Reasoning { .. } => "done.reasoning",
                OutputItem::Message { .. } => "done.message",
                OutputItem::FunctionCall { .. } => "done.function",
                OutputItem::CustomToolCall { .. } => "done.custom",
            },
            SseEvent::Completed { .. } => "response.completed",
            _ => "other",
        })
        .collect()
}

#[test]
fn canonicalizes_interleaved_fireworks_like_stream() {
    let events = run(vec![
        r#"{"type":"response.created","response":{"id":"resp_fw","object":"response","created_at":1,"status":"in_progress","model":"m"}}"#,
        r#"{"type":"response.output_item.added","output_index":0,"item":{"id":"rs_1","type":"reasoning","status":"in_progress","summary":[]}}"#,
        r#"{"type":"response.reasoning_summary_text.delta","item_id":"rs_1","output_index":0,"summary_index":0,"delta":"Need files."}"#,
        r#"{"type":"response.output_item.added","output_index":1,"item":{"id":"msg_1","type":"message","status":"in_progress","role":"assistant","content":[]}}"#,
        r#"{"type":"response.output_text.delta","item_id":"msg_1","output_index":1,"content_index":0,"delta":"\n\n"}"#,
        r#"{"type":"response.output_item.added","output_index":2,"item":{"id":"fc_1","type":"function_call","status":"in_progress","call_id":"call_1","name":"exec_command","arguments":""}}"#,
        r#"{"type":"response.function_call_arguments.delta","item_id":"fc_1","output_index":2,"delta":"{\"cmd\":\"ls\"}"}"#,
        r#"{"type":"response.output_item.done","output_index":0,"item":{"id":"rs_1","type":"reasoning","summary":[{"type":"summary_text","text":"Need files."}]}}"#,
        r#"{"type":"response.function_call_arguments.done","item_id":"fc_1","output_index":2,"arguments":"{\"cmd\":\"ls\"}"}"#,
        r#"{"type":"response.output_item.done","output_index":2,"item":{"id":"fc_1","type":"function_call","status":"completed","call_id":"call_1","name":"exec_command","arguments":"{\"cmd\":\"ls\"}"}}"#,
        r#"{"type":"response.output_item.done","output_index":1,"item":{"id":"msg_1","type":"message","status":"completed","role":"assistant","content":[{"type":"output_text","text":"\n\n","annotations":[]}]}}"#,
        r#"{"type":"response.completed","response":{"id":"resp_fw","object":"response","created_at":1,"status":"completed","model":"m","usage":{"input_tokens":1,"output_tokens":2,"total_tokens":3}}}"#,
    ])
    .expect("canonicalized");

    let types = event_types(&events);
    let reasoning_done = types.iter().position(|t| *t == "done.reasoning").unwrap();
    let function_added = types.iter().position(|t| *t == "added.function").unwrap();
    assert!(reasoning_done < function_added);
    assert!(!types.contains(&"done.message"));
    assert!(types.contains(&"reasoning.delta"));
    assert_eq!(types.last().copied(), Some("response.completed"));
}

#[test]
fn function_arguments_done_does_not_require_name() {
    let events = run(vec![
        r#"{"type":"response.output_item.added","output_index":0,"item":{"id":"fc_1","type":"function_call","status":"in_progress","call_id":"call_1","name":"tool","arguments":""}}"#,
        r#"{"type":"response.function_call_arguments.done","item_id":"fc_1","output_index":0,"arguments":"{}"}"#,
        r#"{"type":"response.output_item.done","output_index":0,"item":{"id":"fc_1","type":"function_call","status":"completed","call_id":"call_1","name":"tool","arguments":"{}"}}"#,
        r#"{"type":"response.completed","response":{"id":"resp","object":"response","created_at":1,"status":"completed","model":"m"}}"#,
    ])
    .expect("canonicalized");
    assert!(events.iter().any(|event| matches!(
        event,
        SseEvent::FunctionCallArgumentsDone { name: Some(name), .. } if name == "tool"
    )));
}

#[test]
fn fails_when_stream_ends_without_completed() {
    let err = run(vec![
        r#"{"type":"response.created","response":{"id":"resp","object":"response","created_at":1,"status":"in_progress","model":"m"}}"#,
    ])
    .expect_err("missing completed should fail");
    assert_eq!(err.error.error_type, "stream_interrupted");
    assert_eq!(err.error.message, "native Responses stream ended before completion event");
}

#[test]
fn response_is_announced_once_and_completed_last() {
    let events = run(vec![
        r#"{"type":"response.created","response":{"id":"r","created_at":1,"status":"in_progress","model":"m"}}"#,
        r#"{"type":"response.in_progress","response":{"id":"r","created_at":1,"status":"in_progress","model":"m"}}"#,
        r#"{"type":"response.output_item.added","output_index":0,"item":{"id":"msg_1","type":"message","role":"assistant","content":[]}}"#,
        r#"{"type":"response.output_text.delta","item_id":"msg_1","output_index":0,"content_index":0,"delta":"Hello"}"#,
        r#"{"type":"response.output_text.done","item_id":"msg_1","output_index":0,"content_index":0,"text":"Hello"}"#,
        r#"{"type":"response.completed","response":{"id":"r","created_at":1,"status":"completed","model":"m"}}"#,
    ])
    .expect("canonicalized");
    let types = event_types(&events);
    assert_eq!(types.iter().filter(|t| **t == "response.created").count(), 1);
    assert_eq!(types.iter().filter(|t| **t == "response.in_progress").count(), 1);
    assert_eq!(types.iter().filter(|t| **t == "response.completed").count(), 1);
    assert_eq!(types.last().copied(), Some("response.completed"));
    assert!(types.contains(&"done.message"));
    match events.last().unwrap() {
        SseEvent::Completed { response } => {
            assert_eq!(response.output_text.as_deref(), Some("Hello"));
            assert_eq!(response.status, "completed");
        }
        _ => panic!("last event is not the completion"),
    }
}

#[test]
fn unknown_event_types_are_ignored_and_listed() {
    let mut canonicalizer = ResponsesCanonicalizer::new("resp_x".into(), "m".into(), 7);
    let outcome = canonicalizer
        .process_event(&j(r#"{"type":"response.vendor_extension","x":1}"#))
        .expect("ignored");
    assert!(outcome.events.is_empty());
    let outcome = canonicalizer.process_event(&j(r#"{"no_type":true}"#)).expect("ignored");
    assert!(outcome.events.is_empty());
    assert_eq!(
        canonicalizer.ignored_events(),
        &vec!["response.vendor_extension".to_string(), "<missing type>".to_string()]
    );
    assert!(!canonicalizer.is_completed());
}
