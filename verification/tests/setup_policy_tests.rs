use codex_shim::chat::{ChatContent, ChatFunctionCall, ChatMessage, ChatToolCall};
use codex_shim::config::{CatalogModelSpec, Config};
use codex_shim::events::{ApiError, SseEvent};
use codex_shim::json::{JsonNumber, JsonValue};
use codex_shim::profile::ProviderProfileConfig;
use codex_shim::setup::{
    api_key_status, config_summary_lines, connectivity_check_url, default_model_slug, key_env_check, model_suggestions, setup_next_steps,
    explain_catalog, generate_slim_config, integrate_base_url, is_listen_address,
    missing_api_key_warning, non_interactive_config_yaml, probe_base_url, probe_report,
    profile_defaults, reasoning_summary, validation_warnings, ProbeOutcome,
};
use codex_shim::stream_policy::{
    client_disconnect_error, failed_response_json, failure_upstream_error, heartbeat_event,
    heartbeat_interval,
    ignored_events_annotation, pre_stream_step, prepend_history, stored_response_fields,
    stream_failure_events, streamed_history, upstream_error_record, StartOutcome, StartStep,
};
use codex_shim::json::to_json_text;
use codex_shim::validation::validate_request_object;

fn to_json(v: &serde_json::Value) -> JsonValue {
    match v {
        serde_json::Value::Null => JsonValue::Null,
        serde_json::Value::Bool(b) => JsonValue::Bool(*b),
        serde_json::Value::Number(n) => {
            if let Some(u) = n.as_u64() {
                JsonValue::Number(JsonNumber::PosInt(u))
            } else if let Some(i) = n.as_i64() {
                JsonValue::Number(JsonNumber::NegInt(i))
            } else {
                JsonValue::Number(JsonNumber::Float(n.to_string()))
            }
        }
        serde_json::Value::String(s) => JsonValue::Str(s.clone()),
        serde_json::Value::Array(items) => JsonValue::Array(items.iter().map(to_json).collect()),
        serde_json::Value::Object(map) => {
            JsonValue::Object(map.iter().map(|(k, v)| (k.clone(), to_json(v))).collect())
        }
    }
}

fn j(text: &str) -> JsonValue {
    to_json(&serde_json::from_str::<serde_json::Value>(text).expect("valid JSON"))
}

#[test]
fn setup_profile_defaults_fall_back_to_placeholders() {
    let d = profile_defaults("sglang");
    assert_eq!(d.base_url, "http://127.0.0.1:30000/v1");
    assert_eq!(d.api_key_env, "SGLANG_API_KEY");
    let d = profile_defaults("brand-new-profile");
    assert_eq!(d.base_url, "https://api.example.com/v1");
    assert_eq!(d.chat_path, "/chat/completions");
    assert_eq!(d.responses_path, "/responses");
    assert_eq!(d.api_key_env, "PROVIDER_API_KEY");
}

#[test]
fn slim_config_with_reasoning_and_custom_base_url() {
    let yaml = generate_slim_config(
        "ollama-chat",
        "OLLAMA_API_KEY",
        "qwen3",
        32768,
        true,
        true,
        "xhigh",
        Some("http://127.0.0.1:11434/v1"),
        "127.0.0.1:8787",
    );
    let expected = "# codex-shim config - generated by `codex-shim setup`\n# Profile: ollama-chat\n# See: codex-shim config show --yaml  for the full resolved config\n\nserver:\n  listen: \"127.0.0.1:8787\"\n\nupstream:\n  base_url: \"http://127.0.0.1:11434/v1\"\n  api_key_env: \"OLLAMA_API_KEY\"\n\nprovider:\n  profile_config:\n    profile: ollama-chat\n\nreasoning:\n  enabled: true\n  effort: xhigh\n\nmodels:\n  default: \"qwen3\"\n  catalog:\n    - slug: \"qwen3\"\n      context_window: 32768\n      reasoning_levels:\n      - xhigh\n      - high\n\nstate:\n  backend: memory\n  debug_artifact_ttl_seconds: 600\n\nlogging:\n  level: info\n";
    assert_eq!(yaml, expected);
}

#[test]
fn slim_config_without_reasoning_or_base_url() {
    let yaml = generate_slim_config("deepseek-chat", "K", "m", -5, false, true, "high", None, "0.0.0.0:1");
    assert!(yaml.contains("upstream:\n  api_key_env: \"K\"\n\nprovider:"));
    assert!(yaml.contains("profile: deepseek-chat\n\n\n\nmodels:"));
    assert!(yaml.contains("context_window: -5\n\nstate:"));
    assert!(!yaml.contains("reasoning"));
    let unsupported = generate_slim_config("p", "K", "m", 1, true, false, "high", None, "h:1");
    assert!(unsupported.contains("context_window: 1\n      reasoning_levels:\n\nstate:"));
}

#[test]
fn non_interactive_config_is_a_valid_deepseek_config() {
    let yaml = non_interactive_config_yaml(true);
    assert!(yaml.starts_with("# codex-shim config - generated by `codex-shim setup`\n# Profile: deepseek-chat\n#\n"));
    assert!(yaml.contains("  base_url: \"https://api.deepseek.com\"\n  chat_path: \"/chat/completions\"\n"));
    assert!(yaml.contains("reasoning:\n  enabled: true\n  effort: high\n"));
    assert!(yaml.contains("context_window: 131072\n      reasoning_levels:\n        - high\n\nstate:"));
    let plain = non_interactive_config_yaml(false);
    assert!(plain.contains("  enabled: false\n"));
    assert!(plain.contains("context_window: 131072\n\nstate:"));
    assert!(plain.ends_with("logging:\n  level: info\n"));
}

#[test]
fn setup_small_helpers() {
    assert!(is_listen_address("127.0.0.1:8787"));
    assert!(!is_listen_address("localhost"));
    assert!(!is_listen_address(""));
    assert_eq!(integrate_base_url("127.0.0.1:9"), "http://127.0.0.1:9/v1");
    assert_eq!(reasoning_summary(true, "high"), "enabled (effort: high)");
    assert_eq!(reasoning_summary(false, "high"), "disabled");
    assert_eq!(probe_base_url("https://api.x.ai/v1/"), "https://api.x.ai");
    assert_eq!(probe_base_url("http://h/v1/v1//"), "http://h");
    assert_eq!(probe_base_url("https://api.deepseek.com"), "https://api.deepseek.com");
    assert_eq!(
        missing_api_key_warning("KEY"),
        "⚠ Warning: upstream API key env var 'KEY' is not set.                          Upstream connectivity check will likely fail."
    );
}

fn catalog_entry(slug: &str, levels: Option<Vec<String>>) -> CatalogModelSpec {
    CatalogModelSpec {
        slug: slug.to_string(),
        display_name: None,
        description: None,
        context_window: 1000,
        tool_calling: None,
        vision: None,
        reasoning_levels: levels,
        priority: None,
        base_instructions: None,
        auto_compact_token_limit: None,
        supports_search_tool: None,
        supports_reasoning_summaries: None,
        apply_patch_tool_type: None,
        supports_image_detail_original: None,
    }
}

#[test]
fn validation_warnings_cover_kind_reasoning_and_default_model() {
    let mut config = Config::default();
    config.provider.kind = "deepseek-chat".into();
    config.provider.profile_config = Some(ProviderProfileConfig {
        profile: "vllm-chat".into(),
        capabilities: None,
        extra_body: None,
    });
    config.reasoning.enabled = true;
    config.models.catalog = vec![
        catalog_entry("a", Some(vec![])),
        catalog_entry("b", Some(vec!["high".into()])),
    ];
    let warnings = validation_warnings(&config);
    assert_eq!(warnings.len(), 3);
    assert_eq!(
        warnings[0],
        "⚠ Warning: provider.kind (deepseek-chat) differs from profile_config.profile (vllm-chat).                      profile_config.profile takes precedence."
    );
    assert_eq!(
        warnings[1],
        "⚠ Warning: reasoning.enabled=true but model 'a' has no reasoning_levels.                          Codex will see this model as non-reasoning."
    );
    assert_eq!(
        warnings[2],
        "⚠ Warning: models.default 'deepseek-v4-pro' resolves to 'deepseek-v4-pro' which is not in models.catalog.                      Codex may request a model that the shim does not advertise."
    );

    let mut quiet = Config::default();
    quiet.models.catalog = vec![catalog_entry("deepseek-v4-pro", None)];
    assert!(validation_warnings(&quiet).is_empty());
}

#[test]
fn probe_report_reflects_both_probes() {
    let chat = ProbeOutcome::Replied(Some(j(r#"{"choices":[],"usage":{}}"#)));
    let responses = ProbeOutcome::Replied(Some(j(
        r#"{"output":[{"type":"reasoning"}],"store":true}"#,
    )));
    let report = probe_report("http://h", &chat, &responses);
    assert_eq!(
        to_json_text(&report),
        r#"{"base_url":"http://h","responses":true,"responses_stateful":true,"chat_completions":true,"streaming":"unknown","function_tools":false,"parallel_tool_calls":"unknown","reasoning_shape":"responses_reasoning_item","usage_in_stream_final":true,"errors":[]}"#
    );

    let failed = probe_report(
        "http://h",
        &ProbeOutcome::Failed("refused".into()),
        &ProbeOutcome::Failed("timeout".into()),
    );
    assert_eq!(
        to_json_text(&failed),
        r#"{"base_url":"http://h","responses":false,"responses_stateful":false,"chat_completions":false,"streaming":"unknown","function_tools":false,"parallel_tool_calls":"unknown","reasoning_shape":"unknown","usage_in_stream_final":false,"errors":["chat_completions: refused","responses: timeout"]}"#
    );
}

#[test]
fn explain_catalog_describes_each_model() {
    let catalog = j(
        r#"{"models":[{"slug":"m1","shell_type":"unified_exec","context_window":131072,"supports_parallel_tool_calls":true,"supports_reasoning_summaries":false,"input_modalities":["text","image"],"web_search_tool_type":"text","apply_patch_tool_type":"freeform"}]}"#,
    );
    let lines = explain_catalog(&catalog).expect("models array");
    assert_eq!(lines.len(), 17);
    assert_eq!(lines[0], "Model: m1");
    assert_eq!(lines[1], "  Shell type:          unified_exec");
    assert_eq!(lines[2], "  Context window:      131072 tokens");
    assert_eq!(lines[3], "  Parallel tool calls: true");
    assert_eq!(lines[4], "  Reasoning summaries: false");
    assert_eq!(lines[5], "  Input modalities:    text, image");
    assert_eq!(lines[6], "  Web search:          text");
    assert_eq!(lines[7], "  Apply patch:         freeform");
    assert_eq!(lines[8], "");
    assert_eq!(lines[9], "  Codex will:");
    assert_eq!(lines[10], "    ✓ Use exec_command / write_stdin shell");
    assert_eq!(lines[11], "    ✓ Make parallel tool calls when beneficial");
    assert_eq!(lines[12], "    ✓ Use apply_patch tool for code edits");
    assert_eq!(lines[13], "    ✗ Web search disabled (Chat API has no server-side web search)");
    assert_eq!(lines[14], "    ✗ No reasoning summaries");
    assert_eq!(lines[15], "    ✓ Image inputs accepted");
    assert_eq!(lines[16], "");

    let sparse = explain_catalog(&j(r#"{"models":[{}]}"#)).expect("models array");
    assert_eq!(sparse[0], "Model: ?");
    assert_eq!(sparse[2], "  Context window:      0 tokens");
    assert_eq!(sparse[7], "  Apply patch:         <disabled>");
    assert_eq!(sparse[10], "    ✗ No shell tool");
    assert!(explain_catalog(&j(r#"{"data":[]}"#)).is_none());
}

#[test]
fn pre_stream_retries_are_bounded() {
    let retryable = StartOutcome::Answered { status: 503, retryable: true, retry_after: None };
    assert_eq!(pre_stream_step(0, 2, &retryable), StartStep::Retry { attempt: 1, delay_seconds: 2 });
    assert_eq!(pre_stream_step(1, 2, &retryable), StartStep::Retry { attempt: 2, delay_seconds: 4 });
    assert_eq!(pre_stream_step(2, 2, &retryable), StartStep::GiveUp { status: 503 });
    let hinted = StartOutcome::Answered { status: 429, retryable: true, retry_after: Some(9) };
    assert_eq!(pre_stream_step(0, 1, &hinted), StartStep::Retry { attempt: 1, delay_seconds: 9 });
    let fatal = StartOutcome::Answered { status: 400, retryable: false, retry_after: None };
    assert_eq!(pre_stream_step(0, 5, &fatal), StartStep::GiveUp { status: 400 });
    let ok = StartOutcome::Answered { status: 200, retryable: false, retry_after: None };
    assert_eq!(pre_stream_step(9, 0, &ok), StartStep::Relay);
    assert_eq!(pre_stream_step(0, 3, &StartOutcome::SendFailed { timed_out: true }), StartStep::TimedOut);
    assert_eq!(
        pre_stream_step(0, 3, &StartOutcome::SendFailed { timed_out: false }),
        StartStep::Retry { attempt: 1, delay_seconds: 2 }
    );
    assert_eq!(pre_stream_step(3, 3, &StartOutcome::SendFailed { timed_out: false }), StartStep::Unreachable);
    assert_eq!(heartbeat_interval(0), None);
    assert_eq!(heartbeat_interval(15), Some(15));
}

#[test]
fn stream_failure_events_carry_the_error_twice() {
    let events = stream_failure_events("resp_1".into(), "m".into(), 42, client_disconnect_error());
    assert_eq!(events.len(), 2);
    match &events[0] {
        SseEvent::Error { error } => {
            assert_eq!(error.error.error_type, "stream_interrupted");
            assert_eq!(error.error.message, "downstream client disconnected while shim was relaying SSE");
        }
        _ => panic!("first event is not the error"),
    }
    match &events[1] {
        SseEvent::Failed { response } => {
            assert_eq!(response.id, "resp_1");
            assert_eq!(response.status, "failed");
            assert_eq!(response.created_at, 42);
            assert_eq!(response.error.as_ref().map(|e| e.error_type.as_str()), Some("stream_interrupted"));
        }
        _ => panic!("second event is not the failed response"),
    }
    assert_eq!(events[1].event_type(), "response.failed");
}

#[test]
fn failure_records_pick_the_last_matching_event() {
    let events = vec![
        j(r#"{"type":"response.failed","n":1}"#),
        j(r#"{"type":"error","error":{"message":"first"}}"#),
        j(r#"{"type":"response.failed","n":2,"error":{"message":"second"}}"#),
        j(r#"{"type":"response.output_text.delta"}"#),
    ];
    assert_eq!(to_json_text(&failed_response_json(&events)), r#"{"error":{"message":"second"},"n":2,"type":"response.failed"}"#);
    assert_eq!(
        to_json_text(&failure_upstream_error(None, &events).unwrap()),
        r#"{"stream_error":{"message":"second"}}"#
    );
    let detail = j(r#"{"kind":"transport"}"#);
    assert_eq!(to_json_text(&failure_upstream_error(Some(&detail), &events).unwrap()), r#"{"kind":"transport"}"#);
    assert!(failed_response_json(&vec![]).is_null());
    assert!(failure_upstream_error(None, &vec![]).is_none());
}

#[test]
fn upstream_error_record_wraps_non_json_bodies() {
    let parsed = upstream_error_record(429, "{}", Some(j(r#"{"error":"slow down"}"#)));
    assert_eq!(to_json_text(&parsed), r#"{"status":429,"body":{"error":"slow down"}}"#);
    let raw = upstream_error_record(502, "bad gateway", None);
    assert_eq!(to_json_text(&raw), r#"{"status":502,"body":{"body":"bad gateway"}}"#);
}

#[test]
fn stored_fields_fall_back_when_the_response_lacks_them() {
    let (id, created_at, status) = stored_response_fields(&j(r#"{"id":"resp_up","created_at":5,"status":"incomplete"}"#), "resp_local", 99);
    assert_eq!((id.as_str(), created_at, status.as_str()), ("resp_up", 5, "incomplete"));
    let (id, created_at, status) = stored_response_fields(&j(r#"{"created_at":"soon"}"#), "resp_unknown", 99);
    assert_eq!((id.as_str(), created_at, status.as_str()), ("resp_unknown", 99, "completed"));
}

#[test]
fn ignored_events_annotation_lists_at_most_twenty() {
    assert!(ignored_events_annotation(&vec![]).is_none());
    let two = ignored_events_annotation(&vec!["a".into(), "b".into()]).unwrap();
    assert_eq!(two, "native Responses canonicalizer ignored upstream event types: a, b");
    let many: Vec<String> = (0..25).map(|i| format!("t{i}")).collect();
    let annotation = ignored_events_annotation(&many).unwrap();
    assert!(annotation.ends_with("t18, t19"));
}

#[test]
fn streamed_history_appends_the_assistant_turn() {
    let sent = vec![ChatMessage::User { content: ChatContent::Text("hi".into()), name: None }];
    let history = streamed_history(sent, "hello".into(), None, "".into());
    assert_eq!(history.len(), 2);
    match &history[1] {
        ChatMessage::Assistant { content: Some(ChatContent::Text(t)), reasoning_content: None, tool_calls: None, .. } => {
            assert_eq!(t, "hello")
        }
        other => panic!("unexpected turn {:?}", other),
    }
    let calls = vec![ChatToolCall {
        id: "call_1".into(),
        call_type: "function".into(),
        function: ChatFunctionCall { name: Some("f".into()), arguments: "{}".into() },
    }];
    let sent = vec![ChatMessage::User { content: ChatContent::Text("hi".into()), name: None }];
    let history = streamed_history(sent, "".into(), Some(calls), "thought".into());
    match &history[1] {
        ChatMessage::Assistant { content: None, reasoning_content: Some(r), tool_calls: Some(t), .. } => {
            assert_eq!(r, "thought");
            assert_eq!(t.len(), 1);
        }
        other => panic!("unexpected turn {:?}", other),
    }
    let sent = vec![ChatMessage::User { content: ChatContent::Text("hi".into()), name: None }];
    assert_eq!(streamed_history(sent, "".into(), None, "ignored".into()).len(), 1);
}

#[test]
fn prepend_history_replays_stored_turns_first() {
    let history = vec![
        ChatMessage::User { content: ChatContent::Text("first".into()), name: None },
    ];
    let input = j(r#"[{"type":"message","role":"user","content":"second"}]"#);
    let replayed = prepend_history(Some(&input), &history);
    assert_eq!(replayed.len(), 2);
    assert!(to_json_text(&replayed[0]).contains("first"));
    assert_eq!(to_json_text(&replayed[1]), r#"{"content":"second","role":"user","type":"message"}"#);
    assert_eq!(prepend_history(Some(&j(r#""text""#)), &history).len(), 1);
}

#[test]
fn validate_request_object_runs_every_check_in_order() {
    let ok = j(r#"{"model":"m","input":"hi","tools":[{"type":"function","name":"f"}]}"#);
    assert!(validate_request_object(&ok).is_ok());
    let unknown = j(r#"{"model":"m","bogus":1}"#);
    let err = validate_request_object(&unknown).unwrap_err();
    assert_eq!(err.error.code.as_deref(), Some("unknown_parameter"));
    assert_eq!(err.error.param.as_deref(), Some("bogus"));
    let bad_tools = j(r#"{"model":"m","tools":[{"type":"custom","name":"p"}]}"#);
    let err = validate_request_object(&bad_tools).unwrap_err();
    assert_eq!(err.error.param.as_deref(), Some("tools[0].format"));
}

#[test]
fn unsupported_field_error_helper() {
    let err = ApiError::field_not_implemented("background");
    assert_eq!(err.error.error_type, "not_implemented");
    assert!(err.error.message.contains("background"));
    assert_eq!(err.error.param.as_deref(), Some("background"));
}

#[test]
fn heartbeat_is_an_in_progress_response_shell() {
    let event = heartbeat_event("resp_7", "deepseek-v4-pro", 99);
    assert_eq!(event.event_type(), "response.in_progress");
    match event {
        SseEvent::InProgress { response } => {
            assert_eq!(response.id, "resp_7");
            assert_eq!(response.model, "deepseek-v4-pro");
            assert_eq!(response.created_at, 99);
            assert_eq!(response.status, "in_progress");
            assert!(response.output.is_none());
            assert!(response.usage.is_none());
            assert!(response.error.is_none());
        }
        _ => panic!("not an in-progress event"),
    }
}

#[test]
fn wizard_checks_the_api_key_variable_name() {
    assert_eq!(key_env_check("DEEPSEEK_API_KEY", true), Ok(()));
    assert_eq!(
        key_env_check("  ", true),
        Err("Environment variable name cannot be empty".to_string())
    );
    assert_eq!(
        key_env_check(" MY_KEY ", false),
        Err("Environment variable 'MY_KEY' is not set in the current shell. You can still continue, but remember to export it before starting the shim.".to_string())
    );
}

#[test]
fn wizard_proposes_and_completes_model_slugs() {
    let recommended = vec!["deepseek-v4-pro".to_string(), "deepseek-chat".to_string(), "other".to_string()];
    assert_eq!(default_model_slug(&recommended), "deepseek-v4-pro");
    assert_eq!(default_model_slug(&vec![]), "model-slug");
    assert_eq!(
        model_suggestions(&recommended, "deepseek-"),
        vec!["deepseek-v4-pro".to_string(), "deepseek-chat".to_string()]
    );
    assert_eq!(model_suggestions(&recommended, ""), recommended);
    assert!(model_suggestions(&recommended, "x").is_empty());
}

#[test]
fn wizard_summary_and_next_steps() {
    assert_eq!(api_key_status(true), "\u{2713} set");
    assert_eq!(api_key_status(false), "\u{26a0} not set in current shell");
    let steps = setup_next_steps("DEEPSEEK_API_KEY", "/home/t/.codex-shim/config.yaml");
    assert_eq!(steps.len(), 7);
    assert_eq!(steps[1], "  1. Export your API key:  export DEEPSEEK_API_KEY=\"sk-...\"");
    assert_eq!(steps[2], "  2. Install Codex config:  codex-shim integrate --config /home/t/.codex-shim/config.yaml");
    assert_eq!(steps[4], "");
    assert_eq!(steps[6], "  codex-shim integrate --config /home/t/.codex-shim/config.yaml --start");
}

#[test]
fn validate_checks_connectivity_at_the_models_url_and_prints_a_summary() {
    assert_eq!(
        connectivity_check_url("https://api.deepseek.com/v1//", "/models"),
        "https://api.deepseek.com/v1/models"
    );
    assert_eq!(connectivity_check_url("http://h:1", "/models"), "http://h:1/models");
    let mut config = Config::default();
    config.provider.kind = "deepseek-chat".into();
    config.models.default = "deepseek-v4-pro".into();
    config.upstream.base_url = "https://api.deepseek.com/v1".into();
    config.server.listen = "127.0.0.1:8787".into();
    config.models.catalog = vec![];
    let lines = config_summary_lines(&config);
    assert_eq!(
        lines,
        vec![
            "Config summary:".to_string(),
            "  Provider:  deepseek-chat".to_string(),
            "  Model:     deepseek-v4-pro".to_string(),
            "  Upstream:  https://api.deepseek.com/v1".to_string(),
            "  Listen:    127.0.0.1:8787".to_string(),
            "  Catalog:   0 model(s)".to_string(),
        ]
    );
}
