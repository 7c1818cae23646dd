//! Bookkeeping and decisions of the stream relay: diagnostics counters and the
//! annotations they become, redaction of debug data, retry delays, and the HTTP
//! status each API error is answered with.
use vstd::prelude::*;
use std::collections::VecDeque;
use std::time::{Duration, Instant};
use crate::json::{JsonValue, JsonView, with_member};
use crate::events::{ApiError, ApiErrorV};
use crate::text::{
    owned, concat2, str_eq, str_contains, has_substring, prefix_before, before_first, truncated, chars_of,
    push_char, push_decimal, push_decimal_u128, decimal,
};

verus! {

#[verifier::external_type_specification]
#[verifier::external_body]
pub struct ExInstant(Instant);

/// Wraps `Instant::now`: a reading of the monotonic clock.
#[verifier::external_body]
fn instant_now() -> (r: Instant) {
    Instant::now()
}

/// Wraps `Instant::elapsed`: the time since `at`, by the monotonic clock.
#[verifier::external_body]
fn instant_elapsed(at: &Instant) -> (r: Duration) {
    at.elapsed()
}

/// Wraps `Duration::as_millis`: the whole milliseconds of a duration.
#[verifier::external_body]
fn duration_millis(d: &Duration) -> (r: u128) {
    d.as_millis()
}

/// Wraps `Duration::as_nanos`: the whole nanoseconds of a duration.
#[verifier::external_body]
fn duration_nanos(d: &Duration) -> (r: u128) {
    d.as_nanos()
}

/// The most raw upstream payloads kept for a failure report.
pub const RAW_SSE_TAIL_LIMIT: usize = 8;

/// The most characters kept of one raw upstream payload.
pub const RAW_SSE_DATA_LIMIT: usize = 4096;

/// Counters and recent history of one relayed stream, reported with its debug
/// artifact.
#[derive(Debug)]
pub struct RelayDiagnostics {
    pub upstream_chunk_count: u64,
    pub downstream_event_count: u64,
    pub zero_event_chunk_count: u64,
    pub unparseable_upstream_event_count: u64,
    pub heartbeat_event_count: u64,
    pub last_upstream_event_kind: Option<String>,
    pub last_downstream_event_kind: Option<String>,
    pub first_upstream_event_at: Option<Instant>,
    pub last_upstream_event_at: Option<Instant>,
    pub last_downstream_event_at: Option<Instant>,
    pub upstream_raw_sse_tail: VecDeque<String>,
    pub stream_error_detail: Option<JsonValue>,
}

/// The mathematical content of the diagnostics; clock readings are only
/// known to be present or not.
pub struct RelayV {
    pub upstream_chunk_count: u64,
    pub downstream_event_count: u64,
    pub zero_event_chunk_count: u64,
    pub unparseable_upstream_event_count: u64,
    pub heartbeat_event_count: u64,
    pub last_upstream_event_kind: Option<Seq<char>>,
    pub last_downstream_event_kind: Option<Seq<char>>,
    pub first_upstream_seen: bool,
    pub last_upstream_seen: bool,
    pub last_downstream_seen: bool,
    pub raw_tail: Seq<Seq<char>>,
    pub stream_error: Option<JsonView>,
}

pub open spec fn str_views(v: Seq<String>) -> Seq<Seq<char>> {
    Seq::new(v.len(), |i: int| v[i]@)
}

pub open spec fn opt_view(o: Option<String>) -> Option<Seq<char>> {
    match o {
        Some(s) => Some(s@),
        None => None,
    }
}

impl View for RelayDiagnostics {
    type V = RelayV;

    open spec fn view(&self) -> RelayV {
        RelayV {
            upstream_chunk_count: self.upstream_chunk_count,
            downstream_event_count: self.downstream_event_count,
            zero_event_chunk_count: self.zero_event_chunk_count,
            unparseable_upstream_event_count: self.unparseable_upstream_event_count,
            heartbeat_event_count: self.heartbeat_event_count,
            last_upstream_event_kind: opt_view(self.last_upstream_event_kind),
            last_downstream_event_kind: opt_view(self.last_downstream_event_kind),
            first_upstream_seen: self.first_upstream_event_at is Some,
            last_upstream_seen: self.last_upstream_event_at is Some,
            last_downstream_seen: self.last_downstream_event_at is Some,
            raw_tail: str_views(self.upstream_raw_sse_tail@),
            stream_error: match self.stream_error_detail { Some(v) => Some(v@), None => None },
        }
    }
}

/// The raw tail after one more upstream payload: the oldest is dropped when
/// the tail is full.
pub open spec fn tail_after(tail: Seq<Seq<char>>, data: Seq<char>) -> Seq<Seq<char>> {
    let kept = if tail.len() == RAW_SSE_TAIL_LIMIT { tail.drop_first() } else { tail };
    kept.push(truncated(data, RAW_SSE_DATA_LIMIT as nat))
}

/// `value` cut to `max_chars` characters, marked when anything was cut.
pub fn truncate_for_debug(value: &str, max_chars: usize) -> (r: String)
    ensures
        r@ == truncated(value@, max_chars as nat),
{
    let cs = chars_of(value);
    let mut out = String::new();
    let mut i: usize = 0;
    while i < cs.len()
        invariant
            cs@ == value@,
            i <= cs@.len(),
            i <= max_chars,
            out@ == value@.take(i as int),
        decreases cs@.len() - i,
    {
        if i == max_chars {
            out.append("...[truncated]");
            return out;
        }
        push_char(&mut out, cs[i]);
        assert(value@.take(i + 1) =~= value@.take(i as int).push(cs@[i as int]));
        i = i + 1;
    }
    assert(value@.take(i as int) =~= value@);
    out
}

impl RelayDiagnostics {
    /// Diagnostics of a stream that has not started.
    pub fn new() -> (d: Self)
        ensures
            d@ == (RelayV {
                upstream_chunk_count: 0,
                downstream_event_count: 0,
                zero_event_chunk_count: 0,
                unparseable_upstream_event_count: 0,
                heartbeat_event_count: 0,
                last_upstream_event_kind: None,
                last_downstream_event_kind: None,
                first_upstream_seen: false,
                last_upstream_seen: false,
                last_downstream_seen: false,
                raw_tail: Seq::empty(),
                stream_error: None,
            }),
    {
        let d = RelayDiagnostics {
            upstream_chunk_count: 0,
            downstream_event_count: 0,
            zero_event_chunk_count: 0,
            unparseable_upstream_event_count: 0,
            heartbeat_event_count: 0,
            last_upstream_event_kind: None,
            last_downstream_event_kind: None,
            first_upstream_event_at: None,
            last_upstream_event_at: None,
            last_downstream_event_at: None,
            upstream_raw_sse_tail: VecDeque::new(),
            stream_error_detail: None,
        };
        assert(d@.raw_tail =~= Seq::<Seq<char>>::empty());
        d
    }

    /// Records an upstream chunk of the given kind, with the time it came.
    pub fn record_upstream(&mut self, kind: String)
        requires
            old(self).upstream_chunk_count < u64::MAX,
        ensures
            final(self)@ == (RelayV {
                upstream_chunk_count: (old(self)@.upstream_chunk_count + 1) as u64,
                last_upstream_event_kind: Some(kind@),
                first_upstream_seen: true,
                last_upstream_seen: true,
                ..old(self)@
            }),
            old(self).first_upstream_event_at is Some ==> final(self).first_upstream_event_at == old(self).first_upstream_event_at,
    {
        self.upstream_chunk_count = self.upstream_chunk_count + 1;
        self.last_upstream_event_kind = Some(kind);
        let now = instant_now();
        if self.first_upstream_event_at.is_none() {
            self.first_upstream_event_at = Some(now);
        }
        self.last_upstream_event_at = Some(now);
    }

    /// Keeps the raw payload of an upstream chunk, cut to its first
    /// `RAW_SSE_DATA_LIMIT` characters; only the last `RAW_SSE_TAIL_LIMIT` are kept.
    pub fn record_upstream_data(&mut self, data: &str)
        ensures
            final(self)@ == (RelayV { raw_tail: tail_after(old(self)@.raw_tail, data@), ..old(self)@ }),
    {
        let ghost before = self@.raw_tail;
        if self.upstream_raw_sse_tail.len() == RAW_SSE_TAIL_LIMIT {
            let _ = self.upstream_raw_sse_tail.pop_front();
            assert(str_views(self.upstream_raw_sse_tail@) =~= before.drop_first());
        }
        let ghost kept = self@.raw_tail;
        self.upstream_raw_sse_tail.push_back(truncate_for_debug(data, RAW_SSE_DATA_LIMIT));
        assert(self@.raw_tail =~= kept.push(truncated(data@, RAW_SSE_DATA_LIMIT as nat)));
    }

    /// Counts an upstream chunk that produced no downstream event.
    pub fn record_zero_event_chunk(&mut self)
        requires
            old(self).zero_event_chunk_count < u64::MAX,
        ensures
            final(self)@ == (RelayV { zero_event_chunk_count: (old(self)@.zero_event_chunk_count + 1) as u64, ..old(self)@ }),
    {
        self.zero_event_chunk_count = self.zero_event_chunk_count + 1;
    }

    /// Counts an upstream chunk that could not be parsed.
    pub fn record_unparseable(&mut self)
        requires
            old(self).unparseable_upstream_event_count < u64::MAX,
        ensures
            final(self)@ == (RelayV {
                unparseable_upstream_event_count: (old(self)@.unparseable_upstream_event_count + 1) as u64,
                ..old(self)@
            }),
    {
        self.unparseable_upstream_event_count = self.unparseable_upstream_event_count + 1;
    }

    /// Records a downstream event of the given kind, with the time it was sent.
    pub fn record_downstream(&mut self, kind: &str)
        requires
            old(self).downstream_event_count < u64::MAX,
        ensures
            final(self)@ == (RelayV {
                downstream_event_count: (old(self)@.downstream_event_count + 1) as u64,
                last_downstream_event_kind: Some(kind@),
                last_downstream_seen: true,
                ..old(self)@
            }),
    {
        self.downstream_event_count = self.downstream_event_count + 1;
        self.last_downstream_event_kind = Some(owned(kind));
        self.last_downstream_event_at = Some(instant_now());
    }

    /// Counts a heartbeat sent downstream.
    pub fn record_heartbeat(&mut self)
        requires
            old(self).heartbeat_event_count < u64::MAX,
        ensures
            final(self)@ == (RelayV { heartbeat_event_count: (old(self)@.heartbeat_event_count + 1) as u64, ..old(self)@ }),
    {
        self.heartbeat_event_count = self.heartbeat_event_count + 1;
    }

    /// Keeps the details of a stream failure, together with the raw tail.
    pub fn record_stream_error(&mut self, detail: JsonValue)
        ensures
            final(self)@ == (RelayV {
                stream_error: Some(with_member(detail@, "upstream_raw_sse_tail"@, JsonView::Array(tail_json(old(self)@.raw_tail)))),
                ..old(self)@
            }),
    {
        let mut tail: Vec<JsonValue> = Vec::new();
        let mut i: usize = 0;
        while i < self.upstream_raw_sse_tail.len()
            invariant
                i <= self.upstream_raw_sse_tail@.len(),
                tail@.len() == i,
                forall|k: int| 0 <= k < i ==> (#[trigger] tail@[k])@ == JsonView::Str(self@.raw_tail[k]),
            decreases self.upstream_raw_sse_tail@.len() - i,
        {
            let s = self.upstream_raw_sse_tail[i].clone();
            assert(s@ == self@.raw_tail[i as int]);
            tail.push(JsonValue::Str(s));
            i = i + 1;
        }
        let arr = JsonValue::Array(tail);
        assert(arr@->Array_0 =~= tail_json(self@.raw_tail));
        self.stream_error_detail = Some(detail.with_member_set("upstream_raw_sse_tail", arr));
    }

    /// Whether a heartbeat is due, `elapsed_nanos` after the last downstream
    /// event: a downstream event was sent and at least `interval_nanos` have
    /// passed since.
    pub fn heartbeat_due_after(&self, elapsed_nanos: u128, interval_nanos: u128) -> (r: bool)
        ensures
            r == (self@.last_downstream_seen && elapsed_nanos >= interval_nanos),
    {
        self.last_downstream_event_at.is_some() && elapsed_nanos >= interval_nanos
    }

    /// Whether a heartbeat is due: a downstream event was sent and at least
    /// `interval` has passed since the last one, by the monotonic clock (as
    /// `heartbeat_due_after` at the time read). Never before the first event.
    pub fn heartbeat_due(&self, interval: Duration) -> (r: bool)
        ensures
            !self@.last_downstream_seen ==> !r,
    {
        match &self.last_downstream_event_at {
            None => false,
            Some(at) => {
                let elapsed = instant_elapsed(at);
                self.heartbeat_due_after(duration_nanos(&elapsed), duration_nanos(&interval))
            }
        }
    }

    /// The annotations describing the relay, with the current ages of its
    /// clock readings.
    pub fn annotations(&self) -> (r: Vec<String>)
        ensures
            exists|a: Option<u128>, b: Option<u128>, c: Option<u128>| {
                &&& (a is Some <==> self@.first_upstream_seen)
                &&& (b is Some <==> self@.last_upstream_seen)
                &&& (c is Some <==> self@.last_downstream_seen)
                &&& str_views(r@) == annotation_lines(self@, a, b, c)
            },
    {
        let first_age = match &self.first_upstream_event_at {
            Some(at) => Some(duration_millis(&instant_elapsed(at))),
            None => None,
        };
        let last_up = match &self.last_upstream_event_at {
            Some(at) => Some(duration_millis(&instant_elapsed(at))),
            None => None,
        };
        let last_down = match &self.last_downstream_event_at {
            Some(at) => Some(duration_millis(&instant_elapsed(at))),
            None => None,
        };
        self.annotations_with_ages(first_age, last_up, last_down)
    }

    /// The annotations describing the relay, given the ages in milliseconds
    /// of its first and last upstream and last downstream events.
    pub fn annotations_with_ages(
        &self,
        first_upstream_age_ms: Option<u128>,
        last_upstream_elapsed_ms: Option<u128>,
        last_downstream_elapsed_ms: Option<u128>,
    ) -> (r: Vec<String>)
        ensures
            str_views(r@) == annotation_lines(self@, first_upstream_age_ms, last_upstream_elapsed_ms, last_downstream_elapsed_ms),
    {
        let mut out: Vec<String> = Vec::new();
        push_count(&mut out, "relay.upstream_chunk_count=", self.upstream_chunk_count);
        push_count(&mut out, "relay.downstream_event_count=", self.downstream_event_count);
        push_count(&mut out, "relay.zero_event_chunk_count=", self.zero_event_chunk_count);
        push_count(&mut out, "relay.unparseable_upstream_event_count=", self.unparseable_upstream_event_count);
        push_count(&mut out, "relay.heartbeat_event_count=", self.heartbeat_event_count);
        push_opt_text(&mut out, "relay.last_upstream_event_kind=", &self.last_upstream_event_kind);
        push_opt_text(&mut out, "relay.last_downstream_event_kind=", &self.last_downstream_event_kind);
        push_opt_age(&mut out, "relay.first_upstream_event_age_ms=", first_upstream_age_ms);
        push_opt_age(&mut out, "relay.last_upstream_event_elapsed_ms=", last_upstream_elapsed_ms);
        push_opt_age(&mut out, "relay.last_downstream_event_elapsed_ms=", last_downstream_elapsed_ms);
        if let Some(error) = &self.stream_error_detail {
            push_error_lines(&mut out, error);
        }
        out
    }
}

pub open spec fn tail_json(tail: Seq<Seq<char>>) -> Seq<JsonView> {
    Seq::new(tail.len(), |i: int| JsonView::Str(tail[i]))
}

pub open spec fn bool_text(b: bool) -> Seq<char> {
    if b { "true"@ } else { "false"@ }
}

pub open spec fn opt_line(label: Seq<char>, v: Option<Seq<char>>) -> Seq<Seq<char>> {
    match v {
        Some(x) => seq![label + x],
        None => Seq::empty(),
    }
}

pub open spec fn age_line(label: Seq<char>, v: Option<u128>) -> Seq<Seq<char>> {
    match v {
        Some(x) => seq![label + decimal(x as nat)],
        None => Seq::empty(),
    }
}

pub open spec fn flag_line(c: JsonView, key: Seq<char>) -> Seq<Seq<char>> {
    match c.get_bool(key) {
        Some(b) => seq!["relay.stream_error."@ + key + "="@ + bool_text(b)],
        None => Seq::empty(),
    }
}

/// The lines describing a recorded stream failure: its kind, and each
/// transport classification flag it carries.
pub open spec fn error_lines(err: JsonView) -> Seq<Seq<char>> {
    let kind = opt_line("relay.stream_error_kind="@, err.get_str("kind"@));
    let flags = match err.get("classification"@) {
        Some(c) => if c is Object {
            flag_line(c, "is_timeout"@) + flag_line(c, "is_decode"@) + flag_line(c, "is_body"@)
                + flag_line(c, "is_connect"@) + flag_line(c, "is_request"@) + flag_line(c, "is_status"@)
        } else {
            Seq::empty()
        },
        None => Seq::empty(),
    };
    kind + flags
}

/// The annotations of a relay: its counters, last event kinds, event ages and
/// failure details, each present part in that order.
pub open spec fn annotation_lines(d: RelayV, a: Option<u128>, b: Option<u128>, c: Option<u128>) -> Seq<Seq<char>> {
    seq![
        "relay.upstream_chunk_count="@ + decimal(d.upstream_chunk_count as nat),
        "relay.downstream_event_count="@ + decimal(d.downstream_event_count as nat),
        "relay.zero_event_chunk_count="@ + decimal(d.zero_event_chunk_count as nat),
        "relay.unparseable_upstream_event_count="@ + decimal(d.unparseable_upstream_event_count as nat),
        "relay.heartbeat_event_count="@ + decimal(d.heartbeat_event_count as nat),
    ] + opt_line("relay.last_upstream_event_kind="@, d.last_upstream_event_kind)
        + opt_line("relay.last_downstream_event_kind="@, d.last_downstream_event_kind)
        + age_line("relay.first_upstream_event_age_ms="@, a)
        + age_line("relay.last_upstream_event_elapsed_ms="@, b)
        + age_line("relay.last_downstream_event_elapsed_ms="@, c)
        + match d.stream_error {
            Some(e) => error_lines(e),
            None => Seq::empty(),
        }
}

fn push_line(out: &mut Vec<String>, line: String)
    ensures
        str_views(final(out)@) == str_views(old(out)@).push(line@),
{
    let ghost before = str_views(out@);
    out.push(line);
    assert(str_views(out@) =~= before.push(line@));
}

fn push_count(out: &mut Vec<String>, label: &str, n: u64)
    ensures
        str_views(final(out)@) == str_views(old(out)@).push(label@ + decimal(n as nat)),
{
    let mut line = owned(label);
    push_decimal(&mut line, n);
    push_line(out, line);
}

fn push_opt_text(out: &mut Vec<String>, label: &str, v: &Option<String>)
    ensures
        str_views(final(out)@) == str_views(old(out)@) + opt_line(label@, opt_view(*v)),
{
    match v {
        Some(x) => push_line(out, concat2(label, x.as_str())),
        None => {
            assert(str_views(out@) + Seq::<Seq<char>>::empty() =~= str_views(out@));
        }
    }
    assert(str_views(out@) =~= str_views(old(out)@) + opt_line(label@, opt_view(*v)));
}

fn push_opt_age(out: &mut Vec<String>, label: &str, v: Option<u128>)
    ensures
        str_views(final(out)@) == str_views(old(out)@) + age_line(label@, v),
{
    match v {
        Some(x) => {
            let mut line = owned(label);
            push_decimal_u128(&mut line, x);
            push_line(out, line);
        }
        None => {}
    }
    assert(str_views(out@) =~= str_views(old(out)@) + age_line(label@, v));
}

fn push_flag(out: &mut Vec<String>, c: &JsonValue, key: &str)
    ensures
        str_views(final(out)@) == str_views(old(out)@) + flag_line(c@, key@),
{
    match c.get_bool(key) {
        Some(b) => {
            let mut line = concat2("relay.stream_error.", key);
            line.append("=");
            line.append(if b { "true" } else { "false" });
            push_line(out, line);
        }
        None => {}
    }
    assert(str_views(out@) =~= str_views(old(out)@) + flag_line(c@, key@));
}

fn push_error_lines(out: &mut Vec<String>, err: &JsonValue)
    ensures
        str_views(final(out)@) == str_views(old(out)@) + error_lines(err@),
{
    let ghost start = str_views(out@);
    match err.get_str("kind") {
        Some(kind) => push_line(out, concat2("relay.stream_error_kind=", kind.as_str())),
        None => {}
    }
    let ghost after_kind = str_views(out@);
    assert(after_kind =~= start + opt_line("relay.stream_error_kind="@, err@.get_str("kind"@)));
    match err.get("classification") {
        Some(c) => {
            if c.is_object() {
                push_flags(out, c);
            }
        }
        None => {}
    }
    assert(str_views(out@) =~= start + error_lines(err@));
}

fn push_flags(out: &mut Vec<String>, c: &JsonValue)
    ensures
        str_views(final(out)@) == str_views(old(out)@) + (flag_line(c@, "is_timeout"@) + flag_line(c@, "is_decode"@)
            + flag_line(c@, "is_body"@) + flag_line(c@, "is_connect"@) + flag_line(c@, "is_request"@)
            + flag_line(c@, "is_status"@)),
{
    let ghost s0 = str_views(out@);
    push_flag(out, c, "is_timeout");
    push_flag(out, c, "is_decode");
    push_flag(out, c, "is_body");
    push_flag(out, c, "is_connect");
    push_flag(out, c, "is_request");
    push_flag(out, c, "is_status");
    assert(str_views(out@) =~= s0 + (flag_line(c@, "is_timeout"@) + flag_line(c@, "is_decode"@)
            + flag_line(c@, "is_body"@) + flag_line(c@, "is_connect"@) + flag_line(c@, "is_request"@)
            + flag_line(c@, "is_status"@)));
}

// ---------------------------------------------------------------------------
// Redaction and classification of upstream data.

/// Whether a header's value must not appear in debug output: credentials,
/// cookies, and any header whose name mentions a token, secret or key.
pub open spec fn sensitive_header(name: Seq<char>) -> bool {
    ||| name == "authorization"@
    ||| name == "proxy-authorization"@
    ||| name == "cookie"@
    ||| name == "set-cookie"@
    ||| name == "x-api-key"@
    ||| has_substring(name, "token"@)
    ||| has_substring(name, "secret"@)
    ||| has_substring(name, "key"@)
}

/// Whether a (lowercase) header name carries a credential.
pub fn is_sensitive_header(name: &str) -> (r: bool)
    ensures
        r == sensitive_header(name@),
{
    str_eq(name, "authorization") || str_eq(name, "proxy-authorization") || str_eq(name, "cookie")
        || str_eq(name, "set-cookie") || str_eq(name, "x-api-key") || str_contains(name, "token")
        || str_contains(name, "secret") || str_contains(name, "key")
}

/// A URL without its query string, which may carry credentials.
pub fn redact_url_for_debug(url: &str) -> (r: String)
    ensures
        r@ == before_first(url@, '?'),
{
    prefix_before(url, '?')
}

/// The kind of an upstream stream payload, for diagnostics: `done` for the
/// end marker, else the payload's `object` (or, without one, `type`) string,
/// else `unparseable`.
pub open spec fn event_kind_of(data: Seq<char>, parsed: Option<JsonView>) -> Seq<char> {
    if data == "[DONE]"@ {
        "done"@
    } else {
        match parsed {
            Some(v) => {
                let field = match v.get("object"@) {
                    Some(o) => Some(o),
                    None => v.get("type"@),
                };
                match field {
                    Some(f) => match f.as_str() {
                        Some(s) => s,
                        None => "unparseable"@,
                    },
                    None => "unparseable"@,
                }
            },
            None => "unparseable"@,
        }
    }
}

/// The kind of an upstream payload, given the payload and its parse as JSON
/// (`None` when it is not JSON).
pub fn upstream_event_kind(data: &str, parsed: Option<&JsonValue>) -> (r: String)
    ensures
        r@ == event_kind_of(data@, match parsed { Some(v) => Some(v@), None => None }),
{
    if str_eq(data, "[DONE]") {
        return owned("done");
    }
    let v = match parsed {
        Some(v) => v,
        None => {
            return owned("unparseable");
        }
    };
    let field = match v.get("object") {
        Some(o) => Some(o),
        None => v.get("type"),
    };
    match field {
        Some(f) => match f.as_str() {
            Some(s) => s.clone(),
            None => owned("unparseable"),
        },
        None => owned("unparseable"),
    }
}

// ---------------------------------------------------------------------------
// Retries and statuses.

/// `2^n`.
pub open spec fn pow2(n: nat) -> nat
    decreases n,
{
    if n == 0 { 1 } else { 2 * pow2((n - 1) as nat) }
}

/// The delay before retry number `attempt`, in seconds: doubling from one
/// second, capped at 64.
pub fn retry_delay(attempt: u32) -> (secs: u64)
    ensures
        secs == pow2(if attempt < 6 { attempt as nat } else { 6 }),
{
    let n: u32 = if attempt < 6 { attempt } else { 6 };
    let mut secs: u64 = 1;
    let mut i: u32 = 0;
    while i < n
        invariant
            n <= 6,
            i <= n,
            secs == pow2(i as nat),
            secs <= 64,
        decreases n - i,
    {
        assert(pow2((i + 1) as nat) == 2 * pow2(i as nat));
        assert(i < 6);
        assert(secs <= 32) by {
            if secs > 32 {
                assert(pow2(i as nat) > 32);
                lemma_pow2_small(i as nat);
            }
        }
        secs = secs * 2;
        i = i + 1;
    }
    secs
}

proof fn lemma_pow2_small(i: nat)
    requires
        i < 6,
    ensures
        pow2(i) <= 32,
{
    reveal_with_fuel(pow2, 7);
}

/// The HTTP status an API error is answered with.
pub open spec fn status_for(e: ApiErrorV) -> u16 {
    let t = e.error_type;
    if t == "upstream_auth_error"@ {
        401
    } else if t == "upstream_rate_limited"@ {
        429
    } else if t == "upstream_timeout"@ {
        504
    } else if t == "not_implemented"@ {
        400
    } else if t == "stream_interrupted"@ {
        502
    } else if t == "invalid_request_error"@ {
        if e.code == Some("response_not_found"@) {
            404
        } else if e.code == Some("debug_artifact_expired"@) {
            410
        } else {
            400
        }
    } else if t == "upstream_error"@ || t == "internal_error"@ {
        502
    } else {
        500
    }
}

/// The HTTP status code of an error response.
pub fn status_code_for(e: &ApiError) -> (r: u16)
    ensures
        r == status_for(e@),
{
    let t = e.error.error_type.as_str();
    if str_eq(t, "upstream_auth_error") {
        401
    } else if str_eq(t, "upstream_rate_limited") {
        429
    } else if str_eq(t, "upstream_timeout") {
        504
    } else if str_eq(t, "not_implemented") {
        400
    } else if str_eq(t, "stream_interrupted") {
        502
    } else if str_eq(t, "invalid_request_error") {
        match &e.error.code {
            Some(c) => {
                if str_eq(c.as_str(), "response_not_found") {
                    404
                } else if str_eq(c.as_str(), "debug_artifact_expired") {
                    410
                } else {
                    400
                }
            }
            None => 400,
        }
    } else if str_eq(t, "upstream_error") || str_eq(t, "internal_error") {
        502
    } else {
        500
    }
}

/// Query of the debug listing: how many recent artifacts to return.
#[derive(Debug)]
pub struct DebugResponsesQuery {
    pub limit: Option<usize>,
}

impl DebugResponsesQuery {
    /// The number of artifacts listed: the requested limit, 20 by default,
    /// kept between 1 and 200.
    pub fn effective_limit(&self) -> (r: usize)
        ensures
            r == match self.limit {
                None => 20,
                Some(n) => if n < 1 { 1 } else if n > 200 { 200 } else { n },
            },
            1 <= r <= 200,
    {
        match self.limit {
            None => 20,
            Some(n) => if n < 1 { 1 } else if n > 200 { 200 } else { n },
        }
    }
}

/// Joins the messages of an error and its sources, skipping a source whose
/// message repeats the one before it.
pub open spec fn chain_parts(messages: Seq<Seq<char>>) -> Seq<Seq<char>>
    decreases messages.len(),
{
    if messages.len() <= 1 {
        messages
    } else {
        let head = chain_parts(messages.drop_last());
        if messages.last() == head.last() {
            head
        } else {
            head.push(messages.last())
        }
    }
}

pub open spec fn joined_with(parts: Seq<Seq<char>>, sep: Seq<char>) -> Seq<char>
    decreases parts.len(),
{
    if parts.len() == 0 {
        Seq::empty()
    } else if parts.len() == 1 {
        parts[0]
    } else {
        joined_with(parts.drop_last(), sep) + sep + parts.last()
    }
}

/// The message of an error with its chain of sources, given the messages of
/// the error and each source in turn.
pub fn error_chain_message(messages: &Vec<String>) -> (r: String)
    ensures
        r@ == joined_with(chain_parts(str_views(messages@)), " | caused by: "@),
{
    let ghost all = str_views(messages@);
    let mut parts: Vec<String> = Vec::new();
    let mut i: usize = 0;
    assert(all.take(0) =~= Seq::<Seq<char>>::empty());
    assert(str_views(parts@) =~= Seq::<Seq<char>>::empty());
    while i < messages.len()
        invariant
            all == str_views(messages@),
            i <= messages@.len(),
            str_views(parts@) == chain_parts(all.take(i as int)),
            i > 0 ==> parts@.len() > 0,
        decreases messages@.len() - i,
    {
        assert(all.take(i + 1).drop_last() =~= all.take(i as int));
        assert(all.take(i + 1).last() == messages@[i as int]@);
        let keep = if parts.len() == 0 {
            true
        } else {
            let last = parts.len() - 1;
            parts[last] != messages[i]
        };
        if keep {
            let ghost before = str_views(parts@);
            parts.push(messages[i].clone());
            assert(str_views(parts@) =~= before.push(messages@[i as int]@));
        }
        i = i + 1;
    }
    assert(all.take(messages@.len() as int) =~= all);
    let mut out = String::new();
    let mut k: usize = 0;
    let ghost ps = str_views(parts@);
    while k < parts.len()
        invariant
            ps == str_views(parts@),
            k <= parts@.len(),
            out@ == joined_with(ps.take(k as int), " | caused by: "@),
        decreases parts@.len() - k,
    {
        assert(ps.take(k + 1).drop_last() =~= ps.take(k as int));
        if k > 0 {
            out.append(" | caused by: ");
        } else {
            assert(ps.take(1)[0] == ps[0]);
        }
        out.append(parts[k].as_str());
        k = k + 1;
    }
    assert(ps.take(parts@.len() as int) =~= ps);
    out
}

} // verus!
