use codex_shim::chat::{ChatContent, ChatFunctionCall, ChatMessage, ChatToolCall};
use codex_shim::json::{JsonNumber, JsonValue};
use codex_shim::metrics::{floor_to_minute, seconds_or_zero, RuntimeMetrics, Usage};
use codex_shim::store::{
    default_conversation_id, message_hash, now_unix_seconds, unix_seconds_from_reading, DebugArtifact,
    MemoryStore, StoreError,
    ResponseState,
};

fn usage(input: u32, output: u32) -> Usage {
    Usage { input_tokens: input, output_tokens: output, total_tokens: input + output }
}

#[test]
fn token_series_groups_usage_by_minute_and_marks_partial_usage() {
    let mut metrics = RuntimeMetrics::new_at(1_700_000_000);
    let base = 1_700_000_000;
    metrics.record_request_completed_at(Some(usage(10, 4)), base);
    metrics.record_request_completed_at(None, base + 4);
    metrics.record_request_completed_at(Some(usage(3, 2)), base + 61);

    let series = metrics.token_series_at(3, base + 61);
    assert_eq!(series.buckets.len(), 3);
    assert!(series.partial_usage);
    let populated: Vec<_> = series
        .buckets
        .into_iter()
        .filter(|bucket| bucket.completed_requests > 0)
        .collect();
    assert_eq!(populated.len(), 2);
    assert_eq!(populated[0].total_tokens, 14);
    assert_eq!(populated[0].completed_requests, 2);
    assert_eq!(populated[0].usage_requests, 1);
    assert_eq!(populated[1].total_tokens, 5);
}

#[test]
fn snapshot_tracks_counts_and_store_size() {
    let mut metrics = RuntimeMetrics::new();
    metrics.record_request_received();
    metrics.record_request_received();
    metrics.record_request_error("boom".to_string());
    metrics.record_request_completed(Some(usage(2, 3)));
    metrics.set_store_size(7);

    let snapshot = metrics.snapshot();
    assert_eq!(snapshot.request_count, 2);
    assert_eq!(snapshot.completed_request_count, 1);
    assert_eq!(snapshot.error_count, 1);
    assert_eq!(snapshot.store_size, 7);
    assert_eq!(snapshot.last_error.as_deref(), Some("boom"));
}

#[test]
fn token_series_window_ends_at_the_current_minute() {
    let mut metrics = RuntimeMetrics::new_at(0);
    metrics.record_request_completed_at(Some(usage(1, 1)), 600);
    let series = metrics.token_series_at(2, 659);
    assert_eq!(series.buckets.len(), 2);
    assert_eq!(series.buckets[0].minute_start_unix, 540);
    assert_eq!(series.buckets[1].minute_start_unix, 600);
    assert_eq!(series.buckets[1].total_tokens, 2);
    assert!(!series.partial_usage);
    assert_eq!(floor_to_minute(659), 600);
    assert_eq!(floor_to_minute(-1), -60);
    let snapshot = metrics.snapshot_at(100);
    assert_eq!(snapshot.uptime_seconds, 100);
}

fn assistant_with_reasoning() -> ChatMessage {
    ChatMessage::Assistant {
        content: None,
        name: None,
        tool_calls: Some(vec![
            ChatToolCall {
                id: "call-a".into(),
                call_type: "function".into(),
                function: ChatFunctionCall { name: Some("exec_command".into()), arguments: "{}".into() },
            },
            ChatToolCall {
                id: "call-b".into(),
                call_type: "function".into(),
                function: ChatFunctionCall {
                    name: Some("exec_command".into()),
                    arguments: "{\"cmd\":\"pwd\"}".into(),
                },
            },
        ]),
        reasoning_content: Some("real thinking".into()),
    }
}

fn obj(fields: Vec<(&str, JsonValue)>) -> JsonValue {
    JsonValue::Object(fields.into_iter().map(|(k, v)| (k.to_string(), v)).collect())
}

fn s(text: &str) -> JsonValue {
    JsonValue::Str(text.to_string())
}

fn response_state(id: &str, created_at: i64, messages: Vec<ChatMessage>) -> ResponseState {
    ResponseState {
        id: id.into(),
        model: "m".into(),
        created_at,
        status: "completed".into(),
        response_json: obj(vec![("id", s(id)), ("status", s("completed"))]),
        previous_response_id: None,
        canonical_messages: messages,
        conversation_id: None,
    }
}

fn debug_artifact(id: &str, created_at: i64) -> DebugArtifact {
    DebugArtifact {
        id: id.into(),
        model: "m".into(),
        created_at,
        status: "completed".into(),
        request_json: obj(vec![("input", s("hello"))]),
        mapped_request_json: obj(vec![("messages", JsonValue::Array(vec![]))]),
        upstream_error: None,
        debug_annotations: vec!["note".into()],
        upstream_sse_events: vec![obj(vec![("id", s("chunk-1"))])],
        response_sse_events: vec![obj(vec![("type", s("response.completed"))])],
        conversation_id: None,
    }
}

fn lookup(pairs: &[(String, String)], key: &str) -> Option<String> {
    pairs.iter().find(|(k, _)| k == key).map(|(_, v)| v.clone())
}

#[test]
fn memory_store_compact_state_round_trips_canonical_messages() {
    let mut store = MemoryStore::new(3600, 600);
    let messages = vec![
        ChatMessage::System { content: ChatContent::Text("instructions".into()), name: None },
        ChatMessage::User { content: ChatContent::Text("hi".into()), name: None },
        assistant_with_reasoning(),
        ChatMessage::Tool { content: ChatContent::Text("tool output".into()), tool_call_id: "call-a".into() },
    ];
    let expected = format!("{:?}", messages);
    store.put_response_state(response_state("resp-1", 1000, messages));

    let json = store.get_response_json("resp-1").expect("stored json");
    assert_eq!(json.get_str("id").map(|s| s.as_str()), Some("resp-1"));
    assert_eq!(json.get_str("status").map(|s| s.as_str()), Some("completed"));
    let restored = store.get_canonical_messages("resp-1").expect("stored messages");
    assert_eq!(format!("{:?}", restored), expected);
    assert_eq!(store.len(), 1);
}

#[test]
fn memory_store_debug_artifact_expires_without_deleting_state() {
    let mut store = MemoryStore::new(3600, 1);
    let now = now_unix_seconds().expect("clock");
    store.put_response_state(response_state("resp-1", now, vec![]));
    store.put_debug_artifact_at(debug_artifact("resp-1", now), now);
    assert!(store.get_debug_artifact_at("resp-1", now).is_some());

    let removed = store.cleanup_expired_at(now + 2);
    assert_eq!(removed, 1);
    assert!(store.get_debug_artifact_at("resp-1", now + 2).is_none());
    assert!(store.get_response_json("resp-1").is_some());
    assert_eq!(store.len(), 1);
}

#[test]
fn memory_store_reasoning_lookup_is_targeted() {
    let mut store = MemoryStore::new(3600, 600);
    store.put_response_state(response_state("resp-1", 1000, vec![assistant_with_reasoning()]));
    let map = store.find_reasoning_for_call_ids("default", &vec!["call-a".into(), "missing".into()]);
    assert_eq!(lookup(&map, "call-a"), Some("real thinking".to_string()));
    assert_eq!(lookup(&map, "missing"), None);
}

#[test]
fn memory_store_lists_recent_debug_artifacts_only() {
    let mut store = MemoryStore::new(3600, 600);
    for (id, created_at) in [("old", 1), ("new", 3), ("mid", 2)] {
        store.put_debug_artifact_at(debug_artifact(id, created_at), 10);
    }
    let ids = store
        .list_debug_artifacts_at(2, 10)
        .into_iter()
        .map(|artifact| artifact.id)
        .collect::<Vec<_>>();
    assert_eq!(ids, vec!["new", "mid"]);
}

#[test]
fn memory_store_delete_removes_state_debug_and_reasoning() {
    let mut store = MemoryStore::new(3600, 600);
    store.put_response_state(response_state("resp-1", 1000, vec![assistant_with_reasoning()]));
    store.put_debug_artifact_at(debug_artifact("resp-1", 1000), 1000);

    assert!(store.delete("resp-1"));
    assert!(store.get_response_json("resp-1").is_none());
    assert!(store.get_canonical_messages("resp-1").is_none());
    assert!(store.get_debug_artifact_at("resp-1", 1000).is_none());
    assert!(store.find_reasoning_for_call_ids("default", &vec!["call-a".into()]).is_empty());
    assert!(!store.delete("resp-1"));
}

#[test]
fn memory_store_clear_and_expiry_of_states() {
    let mut store = MemoryStore::new(10, 600);
    store.put_response_state(response_state("a", 100, vec![]));
    store.put_response_state(response_state("b", 200, vec![]));
    assert_eq!(store.len(), 2);
    let removed = store.cleanup_expired_at(150);
    assert_eq!(removed, 1);
    assert!(store.get_response_json("a").is_none());
    assert!(store.get_response_json("b").is_some());
    store.clear();
    assert_eq!(store.len(), 0);
}

#[test]
fn message_hash_is_stable_and_distinguishes_messages() {
    let a = ChatMessage::User { content: ChatContent::Text("hi".into()), name: None };
    let b = ChatMessage::User { content: ChatContent::Text("hi!".into()), name: None };
    let (ha, _) = message_hash(&a);
    let (ha2, _) = message_hash(&a);
    let (hb, _) = message_hash(&b);
    assert_eq!(ha, ha2);
    assert_ne!(ha, hb);
    assert_eq!(ha.len(), 64);
    assert!(ha.chars().all(|c| c.is_ascii_hexdigit() && !c.is_ascii_uppercase()));
    assert_eq!(default_conversation_id(None), "default");
    assert_eq!(default_conversation_id(Some("conv")), "conv");
    let _ = JsonNumber::PosInt(1);
}

#[test]
fn clock_readings_become_timestamps() {
    assert_eq!(seconds_or_zero(Some(1_700_000_000)), 1_700_000_000);
    assert_eq!(seconds_or_zero(None), 0);
    assert!(matches!(unix_seconds_from_reading(Some(42)), Ok(42)));
    assert!(matches!(unix_seconds_from_reading(None), Err(StoreError::ClockBeforeEpoch)));
}

#[test]
fn clock_based_store_calls_act_at_the_current_time() {
    let mut store = MemoryStore::new(3600, 600);
    store.put_debug_artifact(debug_artifact("resp-now", 1)).expect("clock");
    let listed = store.list_debug_artifacts(10).expect("clock");
    assert_eq!(listed.len(), 1);
    assert_eq!(listed[0].id, "resp-now");
    assert!(store.get_debug_artifact("resp-now").expect("clock").is_some());
}

#[test]
fn token_series_of_no_minutes_is_empty() {
    let mut metrics = RuntimeMetrics::new_at(0);
    metrics.record_request_completed_at(Some(usage(1, 1)), 600);
    let series = metrics.token_series_at(0, 659);
    assert_eq!(series.range_minutes, 0);
    assert!(series.buckets.is_empty());
    assert!(!series.partial_usage);
    let now_series = metrics.token_series(3);
    assert_eq!(now_series.buckets.len(), 3);
    assert_eq!(
        now_series.buckets[2].minute_start_unix - now_series.buckets[0].minute_start_unix,
        120
    );
}

#[test]
fn memory_store_lists_same_second_artifacts_by_descending_id() {
    let mut store = MemoryStore::new(3600, 600);
    for (id, created_at) in [("a", 5), ("c", 5), ("b", 5), ("z", 4)] {
        store.put_debug_artifact_at(debug_artifact(id, created_at), 10);
    }
    let ids = store
        .list_debug_artifacts_at(10, 10)
        .into_iter()
        .map(|artifact| artifact.id)
        .collect::<Vec<_>>();
    assert_eq!(ids, vec!["c", "b", "a", "z"]);
}
