use std::time::Duration;

use codex_shim::chat::{
    apply_reasoning_config_defaults, ChatCompletionRequest, ThinkingConfig,
};
use codex_shim::config::ReasoningSettings;
use codex_shim::events::ApiError;
use codex_shim::json::{JsonNumber, JsonValue};
use codex_shim::profile::ReasoningPolicy;
use codex_shim::relay::{
    error_chain_message, is_sensitive_header, redact_url_for_debug, retry_delay, status_code_for,
    truncate_for_debug, upstream_event_kind, RelayDiagnostics,
};
use codex_shim::stream_policy::debug_annotations_for_request;
use codex_shim::validation::{
    validate_function_call_output, validate_input_item, validate_tools,
};

fn to_json(v: &serde_json::Value) -> JsonValue {
    match v {
        serde_json::Value::Null => JsonValue::Null,
        serde_json::Value::Bool(b) => JsonValue::Bool(*b),
        serde_json::Value::Number(n) => {
            if let Some(u) = n.as_u64() {
                JsonValue::Number(JsonNumber::PosInt(u))
            } else if let Some(i) = n.as_i64() {
                JsonValue::Number(JsonNumber::NegInt(i))
            } else {
                JsonValue::Number(JsonNumber::Float(n.to_string()))
            }
        }
        serde_json::Value::String(s) => JsonValue::Str(s.clone()),
        serde_json::Value::Array(items) => JsonValue::Array(items.iter().map(to_json).collect()),
        serde_json::Value::Object(map) => {
            JsonValue::Object(map.iter().map(|(k, v)| (k.clone(), to_json(v))).collect())
        }
    }
}

fn j(text: &str) -> JsonValue {
    to_json(&serde_json::from_str::<serde_json::Value>(text).expect("valid JSON"))
}

fn chat_request() -> ChatCompletionRequest {
    ChatCompletionRequest {
        model: "deepseek-v4-pro".into(),
        messages: vec![],
        stream: Some(false),
        reasoning_effort: None,
        thinking: None,
    }
}

#[test]
fn relay_diagnostics_records_counts_and_annotations() {
    let mut diagnostics = RelayDiagnostics::new();
    diagnostics.record_upstream("chat.completion.chunk".into());
    diagnostics.record_upstream_data(r#"{"object":"chat.completion.chunk"}"#);
    diagnostics.record_zero_event_chunk();
    diagnostics.record_unparseable();
    diagnostics.record_heartbeat();
    diagnostics.record_downstream("response.created");

    let annotations = diagnostics.annotations();

    assert!(annotations.contains(&"relay.upstream_chunk_count=1".to_string()));
    assert!(annotations.contains(&"relay.downstream_event_count=1".to_string()));
    assert!(annotations.contains(&"relay.zero_event_chunk_count=1".to_string()));
    assert!(annotations.contains(&"relay.unparseable_upstream_event_count=1".to_string()));
    assert!(annotations.contains(&"relay.heartbeat_event_count=1".to_string()));
    assert!(annotations
        .iter()
        .any(|annotation| annotation == "relay.last_upstream_event_kind=chat.completion.chunk"));
    assert!(annotations
        .iter()
        .any(|annotation| annotation == "relay.last_downstream_event_kind=response.created"));
    assert!(annotations
        .iter()
        .any(|annotation| annotation.starts_with("relay.last_downstream_event_elapsed_ms=")));
}

#[test]
fn relay_diagnostics_stream_error_keeps_raw_sse_tail() {
    let mut diagnostics = RelayDiagnostics::new();
    diagnostics.record_upstream("chat.completion.chunk".into());
    diagnostics.record_upstream_data(r#"{"object":"chat.completion.chunk","delta":"first"}"#);
    diagnostics.record_stream_error(j(
        r#"{"kind":"transport","classification":{"is_timeout":false,"is_decode":true,"is_body":true,"is_connect":false,"is_request":false,"is_status":false}}"#,
    ));

    let detail = diagnostics.stream_error_detail.as_ref().unwrap();
    assert_eq!(detail.get_str("kind").map(|s| s.as_str()), Some("transport"));
    let tail = detail.get("upstream_raw_sse_tail").and_then(|t| t.as_array()).unwrap();
    assert_eq!(
        tail[0].as_str().map(|s| s.as_str()),
        Some(r#"{"object":"chat.completion.chunk","delta":"first"}"#)
    );
    let annotations = diagnostics.annotations();
    assert!(annotations.contains(&"relay.stream_error.is_decode=true".to_string()));
    assert!(annotations.contains(&"relay.stream_error.is_body=true".to_string()));
}

#[test]
fn relay_diagnostics_heartbeat_due_requires_prior_downstream_event() {
    let mut diagnostics = RelayDiagnostics::new();
    assert!(!diagnostics.heartbeat_due(Duration::from_secs(0)));

    diagnostics.record_downstream("response.created");
    assert!(diagnostics.heartbeat_due(Duration::from_secs(0)));
}

#[test]
fn relay_diagnostics_keeps_only_the_last_eight_raw_chunks() {
    let mut diagnostics = RelayDiagnostics::new();
    for i in 0..10 {
        diagnostics.record_upstream_data(&format!("chunk-{i}"));
    }
    let tail: Vec<String> = diagnostics.upstream_raw_sse_tail.iter().cloned().collect();
    assert_eq!(tail.len(), 8);
    assert_eq!(tail[0], "chunk-2");
    assert_eq!(tail[7], "chunk-9");
}

#[test]
fn validate_function_call_output_accepts_image_parts() {
    let item = j(
        r#"{"output":[{"type":"input_text","text":"screenshot"},{"type":"input_image","image_url":{"url":"data:image/png;base64,AAAA"}}]}"#,
    );
    validate_function_call_output(&item, "input[0]").unwrap();
}

#[test]
fn debug_annotations_mark_duplicate_input_messages_without_rewriting() {
    let request = j(
        r#"{"input":[{"type":"message","role":"developer","content":"same"},{"type":"message","role":"user","content":"different"},{"type":"message","role":"developer","content":"same"}]}"#,
    );

    let annotations = debug_annotations_for_request(&request);

    assert_eq!(annotations.len(), 1);
    assert!(annotations[0].contains("indexes 0 and 2"));
    assert_eq!(request.get("input").and_then(|i| i.as_array()).unwrap().len(), 3);
}

#[test]
fn debug_annotations_stop_after_ten_findings() {
    let mut items = Vec::new();
    for _ in 0..13 {
        items.push(r#"{"type":"message","role":"user","content":"again"}"#);
    }
    let request = j(&format!("{{\"items\":[{}]}}", items.join(",")));
    let annotations = debug_annotations_for_request(&request);
    assert_eq!(annotations.len(), 11);
    assert_eq!(
        annotations[0],
        "duplicate input message detected at indexes 0 and 1; request was not modified"
    );
    assert_eq!(
        annotations[9],
        "duplicate input message detected at indexes 0 and 10; request was not modified"
    );
    assert_eq!(annotations[10], "duplicate input message scan stopped after 10 findings");

    let assistant = j(r#"{"input":[{"type":"message","role":"assistant","content":"x"},{"type":"message","role":"assistant","content":"x"}]}"#);
    assert!(debug_annotations_for_request(&assistant).is_empty());
}

#[test]
fn validate_tools_rejects_custom_without_format() {
    let tools = j(r#"[{"type":"custom","name":"apply_patch","description":"Use apply_patch"}]"#);
    let err = validate_tools(&tools).unwrap_err();
    assert_eq!(err.error.param.as_deref(), Some("tools[0].format"));
    assert_eq!(err.error.code.as_deref(), Some("missing_required_parameter"));
}

#[test]
fn validate_input_item_rejects_non_string_custom_tool_input() {
    let item = j(
        r#"{"type":"custom_tool_call","call_id":"call_patch","name":"apply_patch","input":{"patch":"*** Begin Patch"}}"#,
    );
    let err = validate_input_item(&item, "input[0]").unwrap_err();
    assert_eq!(err.error.param.as_deref(), Some("input[0].input"));
    assert_eq!(err.error.code.as_deref(), Some("invalid_custom_tool_input"));
}

#[test]
fn validate_reasoning_item_accepts_codex_reasoning_content_shapes() {
    let with_null_content = j(
        r#"{"type":"reasoning","content":null,"summary":[{"type":"summary_text","text":"summary"}]}"#,
    );
    validate_input_item(&with_null_content, "input[3]").unwrap();

    let with_reasoning_text = j(r#"{"type":"reasoning","content":[{"type":"reasoning_text","text":"raw"}]}"#);
    validate_input_item(&with_reasoning_text, "input[3]").unwrap();
}

#[test]
fn validate_reasoning_item_rejects_non_array_content() {
    let item = j(r#"{"type":"reasoning","content":"raw"}"#);
    let err = validate_input_item(&item, "input[3]").unwrap_err();
    assert_eq!(err.error.param.as_deref(), Some("input[3].content"));
    assert_eq!(err.error.code.as_deref(), Some("invalid_reasoning_content"));
}

#[test]
fn deepseek_reasoning_enabled_sets_typed_thinking_and_effort() {
    let mut req = chat_request();
    let reasoning = ReasoningSettings {
        enabled: true,
        effort: "xhigh".into(),
        ..ReasoningSettings::default()
    };
    apply_reasoning_config_defaults(&mut req, &reasoning, ReasoningPolicy::DeepSeekReasoningContent);
    assert_eq!(req.thinking.as_ref().map(|t| t.thinking_type.as_str()), Some("enabled"));
    assert_eq!(req.reasoning_effort.as_deref(), Some("max"));
}

#[test]
fn deepseek_reasoning_disabled_sets_typed_disabled() {
    let mut req = chat_request();
    let reasoning = ReasoningSettings { enabled: false, ..ReasoningSettings::default() };
    apply_reasoning_config_defaults(&mut req, &reasoning, ReasoningPolicy::DeepSeekReasoningContent);
    assert_eq!(req.thinking.as_ref().map(|t| t.thinking_type.as_str()), Some("disabled"));
    assert_eq!(req.reasoning_effort, None);
}

#[test]
fn deepseek_reasoning_defaults_preserve_request_thinking() {
    let mut req = chat_request();
    req.thinking = Some(ThinkingConfig { thinking_type: "enabled".into() });
    req.reasoning_effort = Some("high".into());
    let reasoning = ReasoningSettings { enabled: false, ..ReasoningSettings::default() };
    apply_reasoning_config_defaults(&mut req, &reasoning, ReasoningPolicy::DeepSeekReasoningContent);
    assert_eq!(req.thinking.as_ref().map(|t| t.thinking_type.as_str()), Some("enabled"));
    assert_eq!(req.reasoning_effort.as_deref(), Some("high"));
}

#[test]
fn reasoning_defaults_leave_other_policies_alone() {
    let mut req = chat_request();
    let reasoning = ReasoningSettings { enabled: true, ..ReasoningSettings::default() };
    apply_reasoning_config_defaults(&mut req, &reasoning, ReasoningPolicy::QwenEnableThinking);
    assert!(req.thinking.is_none());
    assert!(req.reasoning_effort.is_none());
}

#[test]
fn debug_helpers() {
    assert_eq!(truncate_for_debug("abcdef", 3), "abc...[truncated]");
    assert_eq!(truncate_for_debug("abc", 3), "abc");
    assert!(is_sensitive_header("authorization"));
    assert!(is_sensitive_header("x-goog-api-key"));
    assert!(is_sensitive_header("x-session-token"));
    assert!(!is_sensitive_header("content-type"));
    assert_eq!(redact_url_for_debug("https://h/p?key=secret&x=1"), "https://h/p");
    assert_eq!(redact_url_for_debug("https://h/p"), "https://h/p");
    assert_eq!(upstream_event_kind("[DONE]", None), "done");
    let chunk = j(r#"{"object":"chat.completion.chunk","type":"ignored"}"#);
    assert_eq!(upstream_event_kind("{}", Some(&chunk)), "chat.completion.chunk");
    let typed = j(r#"{"type":"response.created"}"#);
    assert_eq!(upstream_event_kind("{}", Some(&typed)), "response.created");
    assert_eq!(upstream_event_kind("nope", None), "unparseable");
}

#[test]
fn retry_delay_doubles_and_caps() {
    assert_eq!(retry_delay(0), 1);
    assert_eq!(retry_delay(1), 2);
    assert_eq!(retry_delay(3), 8);
    assert_eq!(retry_delay(6), 64);
    assert_eq!(retry_delay(40), 64);
}

#[test]
fn status_codes_follow_error_types() {
    let e = |t: &str, code: Option<&str>| ApiError::new(t, "m".into(), code.map(|c| c.to_string()), None);
    assert_eq!(status_code_for(&e("upstream_auth_error", None)), 401);
    assert_eq!(status_code_for(&e("upstream_rate_limited", None)), 429);
    assert_eq!(status_code_for(&e("upstream_timeout", None)), 504);
    assert_eq!(status_code_for(&e("not_implemented", None)), 400);
    assert_eq!(status_code_for(&e("stream_interrupted", None)), 502);
    assert_eq!(status_code_for(&e("invalid_request_error", Some("response_not_found"))), 404);
    assert_eq!(status_code_for(&e("invalid_request_error", Some("debug_artifact_expired"))), 410);
    assert_eq!(status_code_for(&e("invalid_request_error", None)), 400);
    assert_eq!(status_code_for(&e("internal_error", None)), 502);
    assert_eq!(status_code_for(&e("something_else", None)), 500);
}

#[test]
fn error_chain_message_skips_repeated_causes() {
    let chain = vec!["outer".to_string(), "outer".to_string(), "inner".to_string()];
    assert_eq!(error_chain_message(&chain), "outer | caused by: inner");
}

#[test]
fn heartbeat_is_due_once_the_interval_has_passed_since_the_last_event() {
    let mut diagnostics = RelayDiagnostics::new();
    assert!(!diagnostics.heartbeat_due_after(10_000, 5_000));
    diagnostics.record_downstream("response.created");
    assert!(diagnostics.heartbeat_due_after(5_000, 5_000));
    assert!(diagnostics.heartbeat_due_after(10_000, 5_000));
    assert!(!diagnostics.heartbeat_due_after(4_999, 5_000));
    assert!(!diagnostics.heartbeat_due(Duration::from_secs(3600)));
}
