//! The decisions of relaying a Responses request upstream: when a stream that
//! has not started yet is retried, what a client is sent when a stream fails,
//! what is recorded of a failed or finished stream, and how a stored history
//! is replayed to an upstream that keeps no state.
use vstd::prelude::*;
use crate::json::{JsonValue, JsonView, values_view, members_view, push_member, push_value, object_of, array_of};
use crate::events::{SseEvent, SseEventV, ResponseShell, ResponseShellV, ApiError, ApiErrorBody, ApiErrorV,
    error_body_view, events_view, opt_str};
use crate::relay::{retry_delay, pow2};
use crate::chat::{ChatMessage, ChatContent, ChatToolCall, chat_message_to_responses_input, responses_input_of};
use crate::store::clone_message;
use crate::text::{owned, concat2, str_eq, push_decimal, decimal};

verus! {

// ---------------------------------------------------------------------------
// Starting an upstream stream.

/// What came of one attempt to start an upstream stream.
#[derive(Debug)]
pub enum StartOutcome {
    /// The upstream answered with this HTTP status. For an error status:
    /// whether the upstream error is one worth retrying, and the delay its
    /// `Retry-After` header asked for, in seconds.
    Answered { status: u16, retryable: bool, retry_after: Option<u64> },
    /// The request could not be sent; whether it timed out.
    SendFailed { timed_out: bool },
}

/// What to do after an attempt to start an upstream stream.
#[derive(Debug, PartialEq, Eq, Structural)]
pub enum StartStep {
    /// Relay the stream.
    Relay,
    /// Wait this many seconds, then make attempt number `attempt`.
    Retry { attempt: u32, delay_seconds: u64 },
    /// Give up with the upstream's error status.
    GiveUp { status: u16 },
    /// Give up: the upstream timed out.
    TimedOut,
    /// Give up: the request could not be sent.
    Unreachable,
}

/// The step after retry number `attempt` (0 for the first try) of at most
/// `max_retries`.
pub open spec fn start_step(attempt: u32, max_retries: u32, outcome: StartOutcome) -> StartStep {
    match outcome {
        StartOutcome::Answered { status, retryable, retry_after } =>
            if status < 400 {
                StartStep::Relay
            } else if retryable && attempt < max_retries {
                StartStep::Retry {
                    attempt: (attempt + 1) as u32,
                    delay_seconds: match retry_after {
                        Some(d) => d,
                        None => pow2(if attempt + 1 < 6 { (attempt + 1) as nat } else { 6 }) as u64,
                    },
                }
            } else {
                StartStep::GiveUp { status }
            },
        StartOutcome::SendFailed { timed_out } =>
            if timed_out {
                StartStep::TimedOut
            } else if attempt < max_retries {
                StartStep::Retry {
                    attempt: (attempt + 1) as u32,
                    delay_seconds: pow2(if attempt + 1 < 6 { (attempt + 1) as nat } else { 6 }) as u64,
                }
            } else {
                StartStep::Unreachable
            },
    }
}

/// Decides what follows an attempt to start an upstream stream: relay it,
/// retry it after a delay, or give up.
pub fn pre_stream_step(attempt: u32, max_retries: u32, outcome: &StartOutcome) -> (r: StartStep)
    ensures
        r == start_step(attempt, max_retries, *outcome),
{
    match outcome {
        StartOutcome::Answered { status, retryable, retry_after } => {
            if *status < 400 {
                StartStep::Relay
            } else if *retryable && attempt < max_retries {
                let next = attempt + 1;
                let delay = match retry_after {
                    Some(d) => *d,
                    None => retry_delay(next),
                };
                StartStep::Retry { attempt: next, delay_seconds: delay }
            } else {
                StartStep::GiveUp { status: *status }
            }
        }
        StartOutcome::SendFailed { timed_out } => {
            if *timed_out {
                StartStep::TimedOut
            } else if attempt < max_retries {
                let next = attempt + 1;
                StartStep::Retry { attempt: next, delay_seconds: retry_delay(next) }
            } else {
                StartStep::Unreachable
            }
        }
    }
}

/// Retries are bounded: a retry comes only while fewer than `max_retries`
/// were made, and it counts one more; so no request is tried more than
/// `max_retries + 1` times.
pub proof fn law_retries_bounded(attempt: u32, max_retries: u32, outcome: StartOutcome)
    ensures
        start_step(attempt, max_retries, outcome) matches StartStep::Retry { attempt: next, .. }
            ==> attempt < max_retries && next == attempt + 1 && next <= max_retries,
        attempt >= max_retries ==> !(start_step(attempt, max_retries, outcome) is Retry),
{
}

/// A successful status always starts the relay, and a timeout never retries.
pub proof fn law_success_relays_and_timeout_gives_up(attempt: u32, max_retries: u32, status: u16, retryable: bool, retry_after: Option<u64>)
    ensures
        status < 400 ==> start_step(attempt, max_retries, StartOutcome::Answered { status, retryable, retry_after }) == StartStep::Relay,
        start_step(attempt, max_retries, StartOutcome::SendFailed { timed_out: true }) == StartStep::TimedOut,
{
}

/// The seconds between heartbeats on the downstream stream; none for 0.
pub fn heartbeat_interval(seconds: u64) -> (r: Option<u64>)
    ensures
        r == (if seconds == 0 { None } else { Some(seconds) }),
{
    if seconds == 0 { None } else { Some(seconds) }
}

// ---------------------------------------------------------------------------
// Failing a stream.

pub fn clone_error_body(b: &ApiErrorBody) -> (r: ApiErrorBody)
    ensures
        error_body_view(r) == error_body_view(*b),
{
    ApiErrorBody {
        error_type: b.error_type.clone(),
        message: b.message.clone(),
        code: match &b.code { Some(c) => Some(c.clone()), None => None },
        param: match &b.param { Some(p) => Some(p.clone()), None => None },
    }
}

/// The two events that end a failed stream: the error, then the failed
/// response carrying it.
pub open spec fn failure_events(response_id: Seq<char>, model: Seq<char>, created_at: i64, e: ApiErrorV) -> Seq<SseEventV> {
    seq![
        SseEventV::Error { error: e },
        SseEventV::Failed {
            response: ResponseShellV {
                id: response_id,
                model,
                created_at,
                status: "failed"@,
                output: None,
                output_text: None,
                usage: None,
                previous_response_id: None,
                error: Some(e),
            },
        },
    ]
}

/// The events a client is sent when a stream fails.
pub fn stream_failure_events(response_id: String, model: String, created_at: i64, error: ApiError) -> (r: Vec<SseEvent>)
    ensures
        events_view(r@) == failure_events(response_id@, model@, created_at, error@),
{
    let body = clone_error_body(&error.error);
    let failed = ResponseShell {
        id: response_id,
        model,
        created_at,
        status: owned("failed"),
        output: None,
        output_text: None,
        usage: None,
        previous_response_id: None,
        error: Some(body),
    };
    let mut r: Vec<SseEvent> = Vec::new();
    r.push(SseEvent::Error { error });
    r.push(SseEvent::Failed { response: failed });
    assert(events_view(r@) =~= failure_events(response_id@, model@, created_at, error@));
    r
}

/// The keep-alive event sent while the upstream is silent: the response,
/// still in progress, with only its identity.
pub open spec fn heartbeat_event_spec(response_id: Seq<char>, model: Seq<char>, created_at: i64) -> SseEventV {
    SseEventV::InProgress {
        response: ResponseShellV {
            id: response_id,
            model,
            created_at,
            status: "in_progress"@,
            output: None,
            output_text: None,
            usage: None,
            previous_response_id: None,
            error: None,
        },
    }
}

/// The `response.in_progress` event a heartbeat sends.
pub fn heartbeat_event(response_id: &str, model: &str, created_at: i64) -> (r: SseEvent)
    ensures
        r@ == heartbeat_event_spec(response_id@, model@, created_at),
{
    SseEvent::InProgress {
        response: ResponseShell {
            id: owned(response_id),
            model: owned(model),
            created_at,
            status: owned("in_progress"),
            output: None,
            output_text: None,
            usage: None,
            previous_response_id: None,
            error: None,
        },
    }
}

/// The message of a client that went away mid-stream.
pub fn client_disconnect_error() -> (r: ApiError)
    ensures
        r@.error_type == "stream_interrupted"@,
        r@.message == "downstream client disconnected while shim was relaying SSE"@,
        r@.code is None,
        r@.param is None,
{
    ApiError::stream_interrupted_with_details(owned("downstream client disconnected while shim was relaying SSE"))
}

/// The position of the last recorded event satisfying `p`, among the first `n`.
pub open spec fn last_where(events: Seq<JsonView>, n: int, p: spec_fn(JsonView) -> bool) -> Option<int>
    decreases n,
{
    if n <= 0 {
        None
    } else if p(events[n - 1]) {
        Some(n - 1)
    } else {
        last_where(events, n - 1, p)
    }
}

pub open spec fn is_failed_event(e: JsonView) -> bool {
    e.get_str("type"@) == Some("response.failed"@)
}

pub open spec fn has_error_member(e: JsonView) -> bool {
    e.get("error"@) is Some
}

/// The response stored for a failed stream: the last `response.failed` event
/// sent, or null.
pub open spec fn failed_response_view(events: Seq<JsonView>) -> JsonView {
    match last_where(events, events.len() as int, |e: JsonView| is_failed_event(e)) {
        Some(i) => events[i],
        None => JsonView::Null,
    }
}

/// The upstream error stored for a failed stream: the stream error's detail,
/// or else `{"stream_error": <error>}` of the last event that carried one.
pub open spec fn failure_upstream_error_view(detail: Option<JsonView>, events: Seq<JsonView>) -> Option<JsonView> {
    match detail {
        Some(d) => Some(d),
        None => match last_where(events, events.len() as int, |e: JsonView| has_error_member(e)) {
            Some(i) => Some(JsonView::Object(seq![("stream_error"@, events[i].get("error"@).unwrap())])),
            None => None,
        },
    }
}

/// The response JSON stored for a failed stream.
pub fn failed_response_json(events: &Vec<JsonValue>) -> (r: JsonValue)
    ensures
        r@ == failed_response_view(values_view(events@)),
{
    let ghost ev = values_view(events@);
    let ghost p = |e: JsonView| is_failed_event(e);
    let mut n: usize = events.len();
    while n > 0
        invariant
            n <= events@.len(),
            ev == values_view(events@),
            p == (|e: JsonView| is_failed_event(e)),
            last_where(ev, ev.len() as int, p) == last_where(ev, n as int, p),
        decreases n,
    {
        let e = &events[n - 1];
        assert(ev[n - 1] == e@);
        let failed = match e.get_str("type") {
            Some(t) => str_eq(t.as_str(), "response.failed"),
            None => false,
        };
        if failed {
            return e.deep_clone();
        }
        n = n - 1;
    }
    JsonValue::Null
}

/// The upstream error stored for a failed stream.
pub fn failure_upstream_error(detail: Option<&JsonValue>, events: &Vec<JsonValue>) -> (r: Option<JsonValue>)
    ensures
        match r { Some(v) => Some(v@), None => None }
            == failure_upstream_error_view(match detail { Some(d) => Some(d@), None => None }, values_view(events@)),
{
    match detail {
        Some(d) => return Some(d.deep_clone()),
        None => {}
    }
    let ghost ev = values_view(events@);
    let ghost p = |e: JsonView| has_error_member(e);
    let mut n: usize = events.len();
    while n > 0
        invariant
            n <= events@.len(),
            ev == values_view(events@),
            p == (|e: JsonView| has_error_member(e)),
            detail is None,
            last_where(ev, ev.len() as int, p) == last_where(ev, n as int, p),
        decreases n,
    {
        let e = &events[n - 1];
        assert(ev[n - 1] == e@);
        match e.get("error") {
            Some(err) => {
                let mut f: Vec<(String, JsonValue)> = Vec::new();
                push_member(&mut f, "stream_error", err.deep_clone());
                let r = object_of(f);
                assert(r@->Object_0 =~= seq![("stream_error"@, ev[n - 1].get("error"@).unwrap())]);
                return Some(r);
            }
            None => {}
        }
        n = n - 1;
    }
    None
}

/// The upstream error recorded when the upstream refuses a request: its
/// status, and its body as JSON (or wrapped as `{"body": <text>}`).
pub open spec fn upstream_error_view(status: u16, body: Seq<char>, parsed: Option<JsonView>) -> JsonView {
    JsonView::Object(seq![
        ("status"@, JsonView::Number(crate::json::NumberView::PosInt(status as u64))),
        ("body"@, match parsed {
            Some(v) => v,
            None => JsonView::Object(seq![("body"@, JsonView::Str(body))]),
        }),
    ])
}

/// The record of an upstream error response; `parsed` is its body read as
/// JSON, when it is JSON.
pub fn upstream_error_record(status: u16, body: &str, parsed: Option<JsonValue>) -> (r: JsonValue)
    ensures
        r@ == upstream_error_view(status, body@, match parsed { Some(v) => Some(v@), None => None }),
{
    let ghost pv = match parsed { Some(ref v) => Some(v@), None => None };
    let body_json = match parsed {
        Some(v) => v,
        None => {
            let mut f: Vec<(String, JsonValue)> = Vec::new();
            push_member(&mut f, "body", JsonValue::Str(owned(body)));
            let o = object_of(f);
            assert(o@->Object_0 =~= seq![("body"@, JsonView::Str(body@))]);
            o
        }
    };
    let mut f: Vec<(String, JsonValue)> = Vec::new();
    push_member(&mut f, "status", JsonValue::Number(crate::json::JsonNumber::PosInt(status as u64)));
    push_member(&mut f, "body", body_json);
    let r = object_of(f);
    assert(r@->Object_0 =~= upstream_error_view(status, body@, pv)->Object_0);
    r
}

// ---------------------------------------------------------------------------
// Finishing a stream.

/// What a finished native stream is stored under: the upstream response's
/// id, creation time and status, or the given fallbacks.
pub open spec fn stored_fields(body: JsonView, fallback_id: Seq<char>, now: i64) -> (Seq<char>, i64, Seq<char>) {
    (
        match body.get_str("id"@) { Some(id) => id, None => fallback_id },
        match body.get("created_at"@) {
            Some(v) => match v.as_i64() { Some(t) => t, None => now },
            None => now,
        },
        match body.get_str("status"@) { Some(s) => s, None => "completed"@ },
    )
}

/// The id, creation time and status a native response is stored with.
pub fn stored_response_fields(body: &JsonValue, fallback_id: &str, now: i64) -> (r: (String, i64, String))
    ensures
        (r.0@, r.1, r.2@) == stored_fields(body@, fallback_id@, now),
{
    let id = match body.get_str("id") { Some(s) => s.clone(), None => owned(fallback_id) };
    let created_at = match body.get("created_at") {
        Some(v) => match v.as_i64() { Some(t) => t, None => now },
        None => now,
    };
    let status = match body.get_str("status") { Some(s) => s.clone(), None => owned("completed") };
    (id, created_at, status)
}

pub open spec fn str_views(v: Seq<String>) -> Seq<Seq<char>> {
    Seq::new(v.len(), |i: int| v[i]@)
}

/// The annotation that lists (up to twenty of) the upstream event types the
/// canonicalizer ignored; none when it ignored none.
pub open spec fn ignored_events_annotation_view(ignored: Seq<Seq<char>>) -> Option<Seq<char>> {
    if ignored.len() == 0 {
        None
    } else {
        Some("native Responses canonicalizer ignored upstream event types: "@
            + crate::relay::joined_with(ignored.take(if ignored.len() < 20 { ignored.len() as int } else { 20 }), ", "@))
    }
}

/// The debug annotation of the event types the canonicalizer ignored.
pub fn ignored_events_annotation(ignored: &Vec<String>) -> (r: Option<String>)
    ensures
        match r { Some(s) => Some(s@), None => None } == ignored_events_annotation_view(str_views(ignored@)),
{
    if ignored.len() == 0 {
        return None;
    }
    let n: usize = if ignored.len() < 20 { ignored.len() } else { 20 };
    let mut first: Vec<String> = Vec::new();
    let mut i: usize = 0;
    while i < n
        invariant
            n <= ignored@.len(),
            i <= n,
            first@.len() == i,
            forall|k: int| 0 <= k < i ==> (#[trigger] first@[k])@ == ignored@[k]@,
        decreases n - i,
    {
        first.push(ignored[i].clone());
        i = i + 1;
    }
    assert(crate::setup::strings_view(first@) =~= str_views(ignored@).take(n as int));
    let joined = crate::setup::join_strings(&first, ", ");
    Some(concat2("native Responses canonicalizer ignored upstream event types: ", joined.as_str()))
}

/// The assistant turn a finished chat stream adds to the stored history, if
/// it produced text or tool calls.
pub open spec fn streamed_turn(text: Seq<char>, tool_calls: Option<Seq<crate::chat::ChatToolCallV>>, reasoning: Seq<char>) -> Option<crate::chat::ChatMessageV> {
    if text.len() == 0 && tool_calls is None {
        None
    } else {
        Some(crate::chat::ChatMessageV::Assistant {
            content: if text.len() == 0 { None } else { Some(crate::chat::ChatContentV::Text(text)) },
            name: None,
            tool_calls,
            reasoning_content: if reasoning.len() == 0 { None } else { Some(reasoning) },
        })
    }
}

/// The history stored after a chat stream finishes: the messages sent, then
/// the assistant turn the stream produced, if any.
pub fn streamed_history(sent: Vec<ChatMessage>, text: String, tool_calls: Option<Vec<ChatToolCall>>, reasoning: String) -> (r: Vec<ChatMessage>)
    ensures
        crate::chat::messages_view(r@) == match streamed_turn(text@,
            match tool_calls { Some(t) => Some(crate::chat::tool_calls_view(t@)), None => None }, reasoning@) {
            Some(m) => crate::chat::messages_view(sent@).push(m),
            None => crate::chat::messages_view(sent@),
        },
{
    let ghost tv = match tool_calls { Some(ref t) => Some(crate::chat::tool_calls_view(t@)), None => None };
    let mut out = sent;
    let ghost before = crate::chat::messages_view(out@);
    if text.unicode_len() == 0 && tool_calls.is_none() {
        return out;
    }
    let content = if text.unicode_len() == 0 { None } else { Some(ChatContent::Text(text)) };
    let reasoning_content = if reasoning.unicode_len() == 0 { None } else { Some(reasoning) };
    let m = ChatMessage::Assistant { content, name: None, tool_calls, reasoning_content };
    let ghost mv = m@;
    out.push(m);
    assert(crate::chat::messages_view(out@) =~= before.push(mv));
    out
}

// ---------------------------------------------------------------------------
// Replaying a stored history.

pub open spec fn replayed_input(input: Option<JsonView>, history: Seq<ChatMessage>) -> Seq<JsonView> {
    Seq::new(history.len(), |i: int| responses_input_of(history[i])) + match input {
        Some(JsonView::Array(items)) => items,
        _ => Seq::empty(),
    }
}

/// The `input` sent to an upstream that keeps no state: the stored history,
/// oldest first, as Responses input items, then the request's own input items.
pub fn prepend_history(input: Option<&JsonValue>, history: &Vec<ChatMessage>) -> (r: Vec<JsonValue>)
    ensures
        values_view(r@) == replayed_input(match input { Some(v) => Some(v@), None => None }, history@),
{
    let mut out: Vec<JsonValue> = Vec::new();
    let mut i: usize = 0;
    while i < history.len()
        invariant
            i <= history@.len(),
            values_view(out@) == Seq::new(i as nat, |k: int| responses_input_of(history@[k])),
        decreases history@.len() - i,
    {
        push_value(&mut out, chat_message_to_responses_input(&history[i]));
        i = i + 1;
        assert(values_view(out@) =~= Seq::new(i as nat, |k: int| responses_input_of(history@[k])));
    }
    let ghost head = values_view(out@);
    match input {
        Some(v) => match v.as_array() {
            Some(items) => {
                let mut j: usize = 0;
                while j < items.len()
                    invariant
                        j <= items@.len(),
                        items@.len() == v@->Array_0.len(),
                        forall|k: int| 0 <= k < items@.len() ==> #[trigger] items@[k]@ == v@->Array_0[k],
                        values_view(out@) == head + v@->Array_0.take(j as int),
                    decreases items@.len() - j,
                {
                    push_value(&mut out, items[j].deep_clone());
                    j = j + 1;
                    assert(values_view(out@) =~= head + v@->Array_0.take(j as int));
                }
                assert(v@->Array_0.take(items@.len() as int) =~= v@->Array_0);
            }
            None => {
                assert(values_view(out@) =~= head + Seq::<JsonView>::empty());
            }
        },
        None => {
            assert(values_view(out@) =~= head + Seq::<JsonView>::empty());
        }
    }
    out
}

// ---------------------------------------------------------------------------
// Debug annotations of a request.

/// The input items of a request: `input`, or else `items`, when an array.
pub open spec fn request_items(request: JsonView) -> Option<Seq<JsonView>> {
    match request.get_array("input"@) {
        Some(a) => Some(a),
        None => request.get_array("items"@),
    }
}

pub open spec fn role_of(item: JsonView) -> Seq<char> {
    match item.get_str("role"@) { Some(r) => r, None => Seq::empty() }
}

pub open spec fn content_of(item: JsonView) -> JsonView {
    match item.get("content"@) { Some(c) => c, None => JsonView::Null }
}

/// An instruction or user message: the items a duplicate scan looks at.
pub open spec fn scanned(item: JsonView) -> bool {
    &&& item.get_str("type"@) == Some("message"@)
    &&& (role_of(item) == "developer"@ || role_of(item) == "system"@ || role_of(item) == "user"@)
}

pub open spec fn same_message(a: JsonView, b: JsonView) -> bool {
    role_of(a) == role_of(b) && content_of(a) == content_of(b)
}

/// The first scanned item at or after `j` and before `i` that repeats item `i`.
pub open spec fn first_repeat(items: Seq<JsonView>, i: int, j: int) -> Option<int>
    decreases i - j,
{
    if j >= i {
        None
    } else if scanned(items[j]) && same_message(items[j], items[i]) {
        Some(j)
    } else {
        first_repeat(items, i, j + 1)
    }
}

pub open spec fn duplicate_note(first: int, idx: int) -> Seq<char> {
    "duplicate input message detected at indexes "@ + decimal(first as nat) + " and "@ + decimal(idx as nat)
        + "; request was not modified"@
}

/// The notes of a duplicate scan over the first `n` items, and whether the
/// scan stopped (after ten findings).
pub open spec fn duplicate_scan(items: Seq<JsonView>, n: int) -> (Seq<Seq<char>>, bool)
    decreases n,
{
    if n <= 0 {
        (Seq::empty(), false)
    } else {
        let (notes, stopped) = duplicate_scan(items, n - 1);
        if stopped || !scanned(items[n - 1]) {
            (notes, stopped)
        } else {
            match first_repeat(items, n - 1, 0) {
                None => (notes, false),
                Some(j) => {
                    let notes2 = notes.push(duplicate_note(j, n - 1));
                    if notes2.len() >= 10 {
                        (notes2.push("duplicate input message scan stopped after 10 findings"@), true)
                    } else {
                        (notes2, false)
                    }
                },
            }
        }
    }
}

/// The debug annotations of a request: one note per instruction or user
/// message that repeats an earlier one, at most ten; the request itself is
/// never changed.
pub open spec fn request_annotations(request: JsonView) -> Seq<Seq<char>> {
    match request_items(request) {
        Some(items) => duplicate_scan(items, items.len() as int).0,
        None => Seq::empty(),
    }
}

fn role_exec(item: &JsonValue) -> (r: String)
    ensures
        r@ == role_of(item@),
{
    match item.get_str("role") { Some(r) => r.clone(), None => String::new() }
}

fn scanned_exec(item: &JsonValue) -> (r: bool)
    ensures
        r == scanned(item@),
{
    let is_message = match item.get_str("type") { Some(t) => str_eq(t.as_str(), "message"), None => false };
    if !is_message {
        return false;
    }
    let role = role_exec(item);
    str_eq(role.as_str(), "developer") || str_eq(role.as_str(), "system") || str_eq(role.as_str(), "user")
}

fn same_message_exec(a: &JsonValue, b: &JsonValue) -> (r: bool)
    ensures
        r == same_message(a@, b@),
{
    let ra = role_exec(a);
    let rb = role_exec(b);
    if !str_eq(ra.as_str(), rb.as_str()) {
        return false;
    }
    match (a.get("content"), b.get("content")) {
        (Some(x), Some(y)) => x.json_eq(y),
        (Some(x), None) => x.is_null(),
        (None, Some(y)) => y.is_null(),
        (None, None) => true,
    }
}

fn first_repeat_exec(items: &Vec<JsonValue>, i: usize) -> (r: Option<usize>)
    requires
        i < items@.len(),
    ensures
        match r { Some(j) => Some(j as int), None => None } == first_repeat(values_view(items@), i as int, 0),
{
    let ghost iv = values_view(items@);
    let mut j: usize = 0;
    while j < i
        invariant
            i < items@.len(),
            j <= i,
            iv == values_view(items@),
            first_repeat(iv, i as int, 0) == first_repeat(iv, i as int, j as int),
        decreases i - j,
    {
        assert(iv[j as int] == items@[j as int]@);
        assert(iv[i as int] == items@[i as int]@);
        if scanned_exec(&items[j]) && same_message_exec(&items[j], &items[i]) {
            return Some(j);
        }
        j = j + 1;
    }
    None
}

/// The debug annotations recorded with a request.
pub fn debug_annotations_for_request(request: &JsonValue) -> (r: Vec<String>)
    ensures
        crate::setup::strings_view(r@) == request_annotations(request@),
{
    let mut out: Vec<String> = Vec::new();
    let items: &Vec<JsonValue> = match request.get("input") {
        Some(v) => match v.as_array() {
            Some(a) => {
                assert(values_view(a@) =~= v@->Array_0);
                a
            }
            None => match request.get("items") {
                Some(w) => match w.as_array() {
                    Some(a) => {
                        assert(values_view(a@) =~= w@->Array_0);
                        a
                    }
                    None => return out,
                },
                None => return out,
            },
        },
        None => match request.get("items") {
            Some(w) => match w.as_array() {
                Some(a) => {
                    assert(values_view(a@) =~= w@->Array_0);
                    a
                }
                None => return out,
            },
            None => return out,
        },
    };
    let ghost iv = values_view(items@);
    assert(request_items(request@) == Some(iv));
    let mut idx: usize = 0;
    let mut stopped = false;
    while idx < items.len()
        invariant
            idx <= items@.len(),
            iv == values_view(items@),
            (crate::setup::strings_view(out@), stopped) == duplicate_scan(iv, idx as int),
        decreases items@.len() - idx,
    {
        if stopped {
            idx = idx + 1;
            continue;
        }
        assert(iv[idx as int] == items@[idx as int]@);
        if scanned_exec(&items[idx]) {
            match first_repeat_exec(items, idx) {
                Some(first) => {
                    let mut note = owned("duplicate input message detected at indexes ");
                    push_decimal(&mut note, first as u64);
                    note.append(" and ");
                    push_decimal(&mut note, idx as u64);
                    note.append("; request was not modified");
                    crate::setup::push_string(&mut out, note);
                    if out.len() >= 10 {
                        crate::setup::push_string(&mut out, owned("duplicate input message scan stopped after 10 findings"));
                        stopped = true;
                    }
                }
                None => {}
            }
        }
        idx = idx + 1;
    }
    out
}

} // verus!
