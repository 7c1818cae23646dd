use codex_shim::json::{to_json_text, JsonValue};
use codex_shim::metrics::RuntimeMetrics;
use codex_shim::config::{AuthCommandConfig, UpstreamConfig};
use codex_shim::events::ApiError;
use codex_shim::gui::{build_runtime_view, idle_runtime_view};
use codex_shim::integration::ShimConfigSummary;
use codex_shim::metrics::{RuntimeMetricsSnapshot, TokenSeriesSnapshot};
use codex_shim::routes::{
    auth_decision, cache_token, cached_token_value, chat_retry_step, command_token,
    delete_stored_response, empty_models_list, error_status, request_url, response_debug_at,
    response_headers_json, stored_response, upstream_auth, upstream_headers,
    upstream_stream_error_json, AuthDecision, ChatAttempt, ChatStep, StreamBreak, UpstreamAuth,
    UpstreamResponseMetadata,
};
use codex_shim::store::{DebugArtifact, MemoryStore, ResponseState};

fn obj(fields: Vec<(&str, JsonValue)>) -> JsonValue {
    JsonValue::Object(fields.into_iter().map(|(k, v)| (k.to_string(), v)).collect())
}

fn s(text: &str) -> JsonValue {
    JsonValue::Str(text.to_string())
}

fn response_state(id: &str) -> ResponseState {
    ResponseState {
        id: id.into(),
        conversation_id: None,
        model: "m".into(),
        created_at: 1000,
        status: "completed".into(),
        response_json: obj(vec![("id", s(id)), ("status", s("completed"))]),
        previous_response_id: None,
        canonical_messages: vec![],
    }
}

fn debug_artifact(id: &str, created_at: i64) -> DebugArtifact {
    DebugArtifact {
        id: id.into(),
        conversation_id: None,
        model: "m".into(),
        created_at,
        status: "completed".into(),
        request_json: obj(vec![("input", s("hello"))]),
        mapped_request_json: obj(vec![]),
        upstream_error: None,
        debug_annotations: vec![],
        upstream_sse_events: vec![],
        response_sse_events: vec![],
    }
}

fn tokens() -> Vec<String> {
    vec!["alpha".to_string(), "beta".to_string()]
}

#[test]
fn health_checks_pass_without_credentials() {
    assert_eq!(auth_decision("/healthz", &tokens(), None), AuthDecision::Allow);
}

#[test]
fn no_configured_tokens_lets_everything_through() {
    assert_eq!(auth_decision("/v1/responses", &vec![], None), AuthDecision::Allow);
}

#[test]
fn bearer_token_is_accepted_only_with_its_prefix() {
    assert_eq!(auth_decision("/v1/responses", &tokens(), Some("Bearer beta")), AuthDecision::Allow);
    assert_eq!(
        auth_decision("/v1/responses", &tokens(), Some("alpha")),
        AuthDecision::Reject("Invalid bearer token".to_string())
    );
    assert_eq!(
        auth_decision("/v1/responses", &tokens(), Some("bearer alpha")),
        AuthDecision::Reject("Invalid bearer token".to_string())
    );
}

#[test]
fn wrong_or_missing_token_is_refused() {
    assert_eq!(
        auth_decision("/v1/responses", &tokens(), Some("Bearer gamma")),
        AuthDecision::Reject("Invalid bearer token".to_string())
    );
    assert_eq!(
        auth_decision("/v1/models", &tokens(), None),
        AuthDecision::Reject("Authorization header required".to_string())
    );
}

#[test]
fn stored_response_is_returned_or_not_found() {
    let mut store = MemoryStore::new(3600, 600);
    store.put_response_state(response_state("resp-1"));
    let found = stored_response(&store, "resp-1").expect("stored");
    assert_eq!(to_json_text(&found), r#"{"id":"resp-1","status":"completed"}"#);
    let missing = stored_response(&store, "resp-9").unwrap_err();
    assert_eq!(missing.error.message, "Response with id 'resp-9' not found.");
    assert_eq!(missing.error.code.as_deref(), Some("response_not_found"));
}

#[test]
fn debug_artifact_distinguishes_expired_from_unknown() {
    let mut store = MemoryStore::new(3600, 600);
    store.put_response_state(response_state("resp-1"));
    store.put_debug_artifact_at(debug_artifact("resp-1", 100), 100);
    let live = response_debug_at(&mut store, "resp-1", 200).expect("live artifact");
    assert_eq!(live.id, "resp-1");
    let expired = response_debug_at(&mut store, "resp-1", 100 + 601).unwrap_err();
    assert_eq!(expired.error.message, "Debug artifact for response 'resp-1' has expired.");
    let unknown = response_debug_at(&mut store, "resp-2", 200).unwrap_err();
    assert_eq!(unknown.error.message, "Response with id 'resp-2' not found.");
}

#[test]
fn deleting_a_response_updates_the_store_size() {
    let mut store = MemoryStore::new(3600, 600);
    let mut metrics = RuntimeMetrics::new_at(0);
    store.put_response_state(response_state("resp-1"));
    store.put_response_state(response_state("resp-2"));
    let deleted = delete_stored_response(&mut store, &mut metrics, "resp-1").expect("deleted");
    assert_eq!(to_json_text(&deleted), r#"{"id":"resp-1","deleted":true}"#);
    assert_eq!(metrics.store_size, 1);
    assert!(stored_response(&store, "resp-1").is_err());
    let again = delete_stored_response(&mut store, &mut metrics, "resp-1").unwrap_err();
    assert_eq!(again.error.code.as_deref(), Some("response_not_found"));
    assert_eq!(metrics.store_size, 1);
}

#[test]
fn request_url_joins_relative_paths_only() {
    assert_eq!(
        request_url("https://api.example.com/v1", "/chat/completions"),
        "https://api.example.com/v1/chat/completions"
    );
    assert_eq!(
        request_url("https://api.example.com/v1", "https://other.example.com/models"),
        "https://other.example.com/models"
    );
}

#[test]
fn chat_retries_double_the_delay_until_the_limit() {
    assert_eq!(chat_retry_step(0, 3, &ChatAttempt::Answered(200)), ChatStep::Accept);
    assert_eq!(
        chat_retry_step(0, 3, &ChatAttempt::Answered(429)),
        ChatStep::Retry { attempt: 1, delay_seconds: 2 }
    );
    assert_eq!(
        chat_retry_step(2, 3, &ChatAttempt::Answered(503)),
        ChatStep::Retry { attempt: 3, delay_seconds: 8 }
    );
    assert_eq!(chat_retry_step(3, 3, &ChatAttempt::Answered(503)), ChatStep::GiveUp { status: 503 });
    assert_eq!(chat_retry_step(0, 3, &ChatAttempt::Answered(400)), ChatStep::GiveUp { status: 400 });
}

#[test]
fn chat_send_failures_retry_unless_timed_out() {
    assert_eq!(
        chat_retry_step(0, 2, &ChatAttempt::SendFailed { timed_out: true }),
        ChatStep::TimedOut
    );
    assert_eq!(
        chat_retry_step(1, 2, &ChatAttempt::SendFailed { timed_out: false }),
        ChatStep::Retry { attempt: 2, delay_seconds: 4 }
    );
    assert_eq!(
        chat_retry_step(2, 2, &ChatAttempt::SendFailed { timed_out: false }),
        ChatStep::Unreachable
    );
}

#[test]
fn models_fallback_is_an_empty_list() {
    assert_eq!(to_json_text(&empty_models_list()), r#"{"object":"list","data":[]}"#);
}

#[test]
fn response_headers_are_redacted_and_truncated() {
    let long = "x".repeat(2100);
    let headers = vec![
        ("content-type".to_string(), Some("text/event-stream".to_string())),
        ("authorization".to_string(), Some("Bearer secret".to_string())),
        ("x-request-token".to_string(), Some("abc".to_string())),
        ("x-binary".to_string(), None),
        ("x-long".to_string(), Some(long)),
    ];
    let record = response_headers_json(&headers);
    match record {
        JsonValue::Object(fields) => {
            assert_eq!(fields.len(), 5);
            let shown: Vec<(String, String)> =
                fields.iter().map(|(k, v)| (k.clone(), to_json_text(v))).collect();
            assert_eq!(shown[0], ("content-type".to_string(), r#""text/event-stream""#.to_string()));
            assert_eq!(shown[1], ("authorization".to_string(), r#""[REDACTED]""#.to_string()));
            assert_eq!(shown[2], ("x-request-token".to_string(), r#""[REDACTED]""#.to_string()));
            assert_eq!(shown[3], ("x-binary".to_string(), r#""[NON_UTF8]""#.to_string()));
            match &fields[4].1 {
                JsonValue::Str(v) => {
                    assert_eq!(*v, format!("{}...[truncated]", "x".repeat(2048)));
                }
                other => panic!("unexpected value {other:?}"),
            }
        }
        other => panic!("unexpected record {other:?}"),
    }
}

#[test]
fn stream_errors_record_kind_classification_and_redacted_url() {
    let transport = upstream_stream_error_json(
        "error decoding response body",
        "error decoding response body -> connection reset",
        JsonValue::Null,
        &StreamBreak::Transport {
            flags: (false, false, true, false, false, false),
            url: Some("https://api.example.com/v1/chat?key=secret".to_string()),
        },
    );
    assert_eq!(
        to_json_text(&transport),
        [
            r#"{"message":"error decoding response body","#,
            r#""source_chain":"error decoding response body -> connection reset","#,
            r#""upstream_response":null,"kind":"transport","#,
            r#""classification":{"is_timeout":false,"is_decode":false,"is_body":true,"#,
            r#""is_connect":false,"is_request":false,"is_status":false},"#,
            r#""url":"https://api.example.com/v1/chat"}"#,
        ]
        .concat()
    );
    let utf8 = upstream_stream_error_json("bad bytes", "bad bytes", JsonValue::Null, &StreamBreak::Utf8);
    assert_eq!(
        to_json_text(&utf8),
        r#"{"message":"bad bytes","source_chain":"bad bytes","upstream_response":null,"kind":"utf8"}"#
    );
}

#[test]
fn error_statuses_follow_the_error_kind() {
    let status = |t: &str, code: Option<&str>| {
        error_status(&ApiError::new(t, "m".to_string(), code.map(|c| c.to_string()), None))
    };
    assert_eq!(status("upstream_auth_error", None), 401);
    assert_eq!(status("upstream_rate_limited", None), 429);
    assert_eq!(status("upstream_timeout", None), 504);
    assert_eq!(status("not_implemented", None), 400);
    assert_eq!(status("stream_interrupted", None), 502);
    assert_eq!(status("invalid_request_error", Some("response_not_found")), 404);
    assert_eq!(status("invalid_request_error", Some("debug_artifact_expired")), 410);
    assert_eq!(status("invalid_request_error", Some("invalid_value")), 400);
    assert_eq!(status("invalid_request_error", None), 400);
    assert_eq!(status("upstream_error", None), 502);
    assert_eq!(status("internal_error", None), 502);
    assert_eq!(status("something_else", None), 500);
    assert_eq!(error_status(&ApiError::response_not_found("r")), 404);
    assert_eq!(error_status(&ApiError::debug_artifact_expired("r")), 410);
}

fn upstream(requires_openai_auth: bool, command: bool) -> UpstreamConfig {
    let mut u = UpstreamConfig::default();
    u.requires_openai_auth = requires_openai_auth;
    u.auth_command = if command {
        Some(AuthCommandConfig {
            command: "print-token".into(),
            args: vec![],
            timeout_ms: 5000,
            refresh_interval_ms: 60000,
            cwd: None,
        })
    } else {
        None
    };
    u
}

#[test]
fn upstream_credential_source_follows_priority() {
    assert_eq!(upstream_auth(&upstream(true, true)), UpstreamAuth::External);
    assert_eq!(upstream_auth(&upstream(false, true)), UpstreamAuth::Command);
    assert_eq!(upstream_auth(&upstream(false, false)), UpstreamAuth::EnvKey);
}

#[test]
fn upstream_headers_carry_credential_static_and_set_env_headers() {
    let mut u = upstream(false, false);
    u.http_headers = vec![("x-team".into(), "core".into())];
    u.env_http_headers = vec![
        ("x-org".into(), "ORG_ID".into()),
        ("x-project".into(), "PROJECT_ID".into()),
    ];
    let headers = upstream_headers(&u, Some("sk-1"), &vec![None, Some("p-7".into())]);
    assert_eq!(
        headers,
        vec![
            ("authorization".to_string(), "Bearer sk-1".to_string()),
            ("x-team".to_string(), "core".to_string()),
            ("x-project".to_string(), "p-7".to_string()),
        ]
    );
    let without = upstream_headers(&u, None, &vec![]);
    assert_eq!(without, vec![("x-team".to_string(), "core".to_string())]);
}

#[test]
fn auth_command_output_becomes_a_trimmed_token() {
    assert_eq!(command_token(true, "exit status: 0", "  tok-1\n", ""), Ok("tok-1".to_string()));
    assert_eq!(
        command_token(true, "exit status: 0", " \n", ""),
        Err("auth command returned empty token".to_string())
    );
    assert_eq!(
        command_token(false, "exit status: 2", "", " denied\n"),
        Err("auth command exited with exit status: 2: denied".to_string())
    );
}

#[test]
fn cached_token_is_used_until_due() {
    let entry = cache_token("tok", 1000, 500);
    assert_eq!(entry.expires_at_ms, 1500);
    let cache = Some(entry);
    assert_eq!(cached_token_value(&cache, 1499), Some("tok".to_string()));
    assert_eq!(cached_token_value(&cache, 1500), None);
    assert_eq!(cached_token_value(&None, 0), None);
}

fn series() -> TokenSeriesSnapshot {
    TokenSeriesSnapshot { range_minutes: 60, partial_usage: false, buckets: vec![] }
}

#[test]
fn runtime_view_copies_summary_and_counters() {
    let summary = ShimConfigSummary {
        listen: "127.0.0.1:8787".into(),
        provider_kind: "deepseek-chat".into(),
        upstream_base_url: "https://api.deepseek.com/v1".into(),
        model: "deepseek-v4-pro".into(),
        state_backend: "memory".into(),
    };
    let metrics = RuntimeMetricsSnapshot {
        uptime_seconds: 42,
        request_count: 7,
        completed_request_count: 5,
        error_count: 2,
        store_size: 3,
        last_error: Some("boom".into()),
    };
    let view = build_runtime_view(true, &summary, "chat_shim", metrics, series());
    assert!(view.running);
    assert_eq!(view.listen, "127.0.0.1:8787");
    assert_eq!(view.provider, "deepseek-chat");
    assert_eq!(view.endpoint_mode, "chat_shim");
    assert_eq!(view.upstream_base_url, "https://api.deepseek.com/v1");
    assert_eq!(view.model, "deepseek-v4-pro");
    assert_eq!(view.state_backend, "memory");
    assert_eq!(view.uptime_seconds, 42);
    assert_eq!(view.request_count, 7);
    assert_eq!(view.completed_request_count, 5);
    assert_eq!(view.error_count, 2);
    assert_eq!(view.store_size, 3);
    assert_eq!(view.last_error.as_deref(), Some("boom"));
    assert_eq!(view.token_series.range_minutes, 60);

    let idle = idle_runtime_view(series());
    assert!(!idle.running);
    assert_eq!(idle.listen, "");
    assert_eq!(idle.request_count, 0);
    assert!(idle.last_error.is_none());
}

#[test]
fn upstream_metadata_records_status_version_and_headers() {
    let headers = response_headers_json(&vec![("x-id".to_string(), Some("7".to_string()))]);
    let meta = UpstreamResponseMetadata { status: 502, http_version: "HTTP/1.1".into(), headers };
    assert_eq!(
        to_json_text(&meta.to_json()),
        r#"{"status":502,"http_version":"HTTP/1.1","headers":{"x-id":"7"}}"#
    );
}
