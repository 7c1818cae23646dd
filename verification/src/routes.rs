//! The decisions of the shim's HTTP surface: who may call it, what the
//! stored-response endpoints answer, where upstream requests go and when a
//! chat request is retried, and what is recorded of upstream responses.
use vstd::prelude::*;
use crate::json::{JsonValue, JsonView, JsonNumber, NumberView, members_view, values_view, push_member, object_of, array_of, string_value};
use crate::events::{ApiError, ApiErrorV, response_not_found_error, debug_artifact_expired_error};
use crate::store::{MemoryStore, DebugArtifactView};
use crate::metrics::RuntimeMetrics;
use crate::relay::{is_sensitive_header, truncate_for_debug, sensitive_header, redact_url_for_debug};
use crate::text::{owned, concat2, str_eq, chars_of, truncated, before_first, trim, trimmed};
use crate::config::UpstreamConfig;

verus! {

// ---------------------------------------------------------------------------
// Caller authentication.

/// Whether a request may go on, or the message it is refused with.
#[derive(Debug, PartialEq, Eq)]
pub enum AuthDecision {
    Allow,
    Reject(String),
}

/// Whether an `Authorization` value is `Bearer ` followed by a token.
pub open spec fn has_bearer_prefix(header: Seq<char>) -> bool {
    header.len() >= 7 && header.take(7) == "Bearer "@
}

pub open spec fn token_accepted(tokens: Seq<String>, token: Seq<char>) -> bool {
    exists|i: int| 0 <= i < tokens.len() && (#[trigger] tokens[i])@ == token
}

/// The bearer check of the shim: `/healthz` always passes, every request
/// passes when no token is configured, and otherwise the `Authorization`
/// header must be `Bearer ` followed by one of the tokens.
pub open spec fn auth_decision_spec(path: Seq<char>, tokens: Seq<String>, header: Option<Seq<char>>) -> Result<(), Seq<char>> {
    if path == "/healthz"@ || tokens.len() == 0 {
        Ok(())
    } else {
        match header {
            Some(h) => if has_bearer_prefix(h) && token_accepted(tokens, h.skip(7)) {
                Ok(())
            } else {
                Err("Invalid bearer token"@)
            },
            None => Err("Authorization header required"@),
        }
    }
}

/// The token after a `Bearer ` prefix, if the value has one.
fn bearer_token(header: &str) -> (r: Option<String>)
    ensures
        match r {
            Some(t) => has_bearer_prefix(header@) && t@ == header@.skip(7),
            None => !has_bearer_prefix(header@),
        },
{
    let cs = chars_of(header);
    proof { reveal_strlit("Bearer "); }
    if cs.len() >= 7 {
        let head = crate::text::string_from_chars(&cs, 0, 7);
        assert(cs@.subrange(0, 7) =~= cs@.take(7));
        if str_eq(head.as_str(), "Bearer ") {
            let r = crate::text::string_from_chars(&cs, 7, cs.len());
            assert(cs@.subrange(7, cs@.len() as int) =~= cs@.skip(7));
            return Some(r);
        }
    }
    None
}

/// Decides whether a request to `path` with the given `Authorization` header
/// (when it is text) passes the bearer check.
pub fn auth_decision(path: &str, accepted_tokens: &Vec<String>, authorization: Option<&str>) -> (r: AuthDecision)
    ensures
        match auth_decision_spec(path@, accepted_tokens@, match authorization { Some(h) => Some(h@), None => None }) {
            Ok(()) => r == AuthDecision::Allow,
            Err(m) => r matches AuthDecision::Reject(msg) && msg@ == m,
        },
{
    if str_eq(path, "/healthz") || accepted_tokens.len() == 0 {
        return AuthDecision::Allow;
    }
    match authorization {
        Some(h) => {
            let token = match bearer_token(h) {
                Some(t) => t,
                None => return AuthDecision::Reject(owned("Invalid bearer token")),
            };
            let mut i: usize = 0;
            while i < accepted_tokens.len()
                invariant
                    i <= accepted_tokens@.len(),
                    has_bearer_prefix(h@),
                    token@ == h@.skip(7),
                    authorization == Some(h),
                    !(path@ == "/healthz"@),
                    accepted_tokens@.len() > 0,
                    forall|k: int| 0 <= k < i ==> (#[trigger] accepted_tokens@[k])@ != token@,
                decreases accepted_tokens@.len() - i,
            {
                if str_eq(accepted_tokens[i].as_str(), token.as_str()) {
                    assert(token_accepted(accepted_tokens@, token@)) by {
                        assert(accepted_tokens@[i as int]@ == token@);
                    }
                    return AuthDecision::Allow;
                }
                i = i + 1;
            }
            AuthDecision::Reject(owned("Invalid bearer token"))
        }
        None => AuthDecision::Reject(owned("Authorization header required")),
    }
}

/// Health checks are never refused, and with no tokens configured nothing is.
pub proof fn law_open_paths(path: Seq<char>, tokens: Seq<String>, header: Option<Seq<char>>)
    ensures
        auth_decision_spec("/healthz"@, tokens, header) is Ok,
        tokens.len() == 0 ==> auth_decision_spec(path, tokens, header) is Ok,
{
}

/// With tokens configured, every request but a health check needs the
/// `Bearer ` prefix: a header without it is refused, a configured token
/// sent bare among them.
pub proof fn law_bearer_required(path: Seq<char>, tokens: Seq<String>, h: Seq<char>)
    requires
        path != "/healthz"@,
        tokens.len() > 0,
        !has_bearer_prefix(h),
    ensures
        auth_decision_spec(path, tokens, Some(h)) == Err::<(), Seq<char>>("Invalid bearer token"@),
{
}

/// A configured token, sent with the `Bearer ` prefix, is accepted on every path.
pub proof fn law_configured_token_accepted(path: Seq<char>, tokens: Seq<String>, i: int)
    requires
        0 <= i < tokens.len(),
    ensures
        auth_decision_spec(path, tokens, Some("Bearer "@ + tokens[i]@)) is Ok,
{
    let h = "Bearer "@ + tokens[i]@;
    reveal_strlit("Bearer ");
    assert(h.take(7) =~= "Bearer "@);
    assert(h.skip(7) =~= tokens[i]@);
    assert(token_accepted(tokens, h.skip(7)));
}

// ---------------------------------------------------------------------------
// Error statuses.

/// The HTTP status an error is answered with on the Responses endpoints.
pub open spec fn error_status_spec(e: ApiErrorV) -> u16 {
    let t = e.error_type;
    if t == "upstream_auth_error"@ {
        401
    } else if t == "upstream_rate_limited"@ {
        429
    } else if t == "upstream_timeout"@ {
        504
    } else if t == "not_implemented"@ {
        400
    } else if t == "stream_interrupted"@ {
        502
    } else if t == "invalid_request_error"@ {
        if e.code == Some("response_not_found"@) {
            404
        } else if e.code == Some("debug_artifact_expired"@) {
            410
        } else {
            400
        }
    } else if t == "upstream_error"@ || t == "internal_error"@ {
        502
    } else {
        500
    }
}

/// The HTTP status of an error: authentication, rate-limit and timeout
/// errors of the upstream keep their meaning, an unknown or expired stored
/// response is 404 or 410, other request errors 400, upstream and internal
/// failures 502, anything else 500.
pub fn error_status(e: &ApiError) -> (r: u16)
    ensures
        r == error_status_spec(e@),
{
    let t = e.error.error_type.as_str();
    if str_eq(t, "upstream_auth_error") {
        401
    } else if str_eq(t, "upstream_rate_limited") {
        429
    } else if str_eq(t, "upstream_timeout") {
        504
    } else if str_eq(t, "not_implemented") {
        400
    } else if str_eq(t, "stream_interrupted") {
        502
    } else if str_eq(t, "invalid_request_error") {
        match &e.error.code {
            Some(c) => {
                if str_eq(c.as_str(), "response_not_found") {
                    404
                } else if str_eq(c.as_str(), "debug_artifact_expired") {
                    410
                } else {
                    400
                }
            }
            None => 400,
        }
    } else if str_eq(t, "upstream_error") || str_eq(t, "internal_error") {
        502
    } else {
        500
    }
}

// ---------------------------------------------------------------------------
// Stored responses.

/// The stored JSON of a response, or `response_not_found`.
pub fn stored_response(store: &MemoryStore, id: &str) -> (r: Result<JsonValue, ApiError>)
    ensures
        match store@.json_of(id@) {
            Some(j) => r matches Ok(v) && v@ == j,
            None => r matches Err(e) && e@ == response_not_found_error(id@),
        },
{
    match store.get_response_json(id) {
        Some(v) => Ok(v),
        None => Err(ApiError::response_not_found(id)),
    }
}

/// The debug artifact of a response, as of `now`; `debug_artifact_expired`
/// when the response is stored but its artifact is gone, `response_not_found`
/// when neither is.
pub fn response_debug_at(store: &mut MemoryStore, id: &str, now: i64) -> (r: Result<DebugArtifactView, ApiError>)
    requires
        old(store)@.wf(),
    ensures
        final(store)@.wf(),
        match old(store)@.debug_of(id@) {
            Some((a, expires_at)) if expires_at > now => r matches Ok(v) && v@ == (a, expires_at),
            _ => match old(store)@.json_of(id@) {
                Some(_) => r matches Err(e) && e@ == debug_artifact_expired_error(id@),
                None => r matches Err(e) && e@ == response_not_found_error(id@),
            },
        },
{
    let ghost s0 = store@;
    match store.get_debug_artifact_at(id, now) {
        Some(v) => Ok(v),
        None => {
            proof {
                assert(store@.json_of(id@) == s0.json_of(id@)) by {
                    assert(store@.responses == s0.responses);
                }
            }
            match store.get_response_json(id) {
                Some(_) => Err(ApiError::debug_artifact_expired(id)),
                None => Err(ApiError::response_not_found(id)),
            }
        }
    }
}

/// Deletes a stored response and updates the store size the metrics show;
/// `{"id": <id>, "deleted": true}`, or `response_not_found`.
pub fn delete_stored_response(store: &mut MemoryStore, metrics: &mut RuntimeMetrics, id: &str) -> (r: Result<JsonValue, ApiError>)
    requires
        old(store)@.wf(),
    ensures
        final(store)@.wf(),
        final(store)@.response(id@) is None,
        old(store)@.response(id@) is Some ==> (r matches Ok(v) && v@ == JsonView::Object(seq![
            ("id"@, JsonView::Str(id@)), ("deleted"@, JsonView::Bool(true))])
            && final(metrics).store_size == final(store)@.responses.len()),
        old(store)@.response(id@) is None ==> (r matches Err(e) && e@ == response_not_found_error(id@)
            && final(metrics).store_size == old(metrics).store_size),
        final(metrics).request_count == old(metrics).request_count,
        final(metrics).error_count == old(metrics).error_count,
{
    if store.delete(id) {
        metrics.set_store_size(store.len());
        let mut f: Vec<(String, JsonValue)> = Vec::new();
        push_member(&mut f, "id", string_value(id));
        push_member(&mut f, "deleted", JsonValue::Bool(true));
        let r = object_of(f);
        assert(r@->Object_0 =~= seq![("id"@, JsonView::Str(id@)), ("deleted"@, JsonView::Bool(true))]);
        Ok(r)
    } else {
        Err(ApiError::response_not_found(id))
    }
}

// ---------------------------------------------------------------------------
// Upstream requests.

/// Where an upstream request goes: an absolute URL as given, any other path
/// after the base URL.
pub open spec fn request_url_spec(base_url: Seq<char>, path: Seq<char>) -> Seq<char> {
    if path.len() >= 4 && path.take(4) == "http"@ { path } else { base_url + path }
}

pub fn request_url(base_url: &str, path: &str) -> (r: String)
    ensures
        r@ == request_url_spec(base_url@, path@),
{
    let cs = chars_of(path);
    proof { reveal_strlit("http"); }
    if cs.len() >= 4 {
        let head = crate::text::string_from_chars(&cs, 0, 4);
        assert(cs@.subrange(0, 4) =~= cs@.take(4));
        if str_eq(head.as_str(), "http") {
            return owned(path);
        }
    }
    concat2(base_url, path)
}

/// Where the credential of an upstream request comes from.
#[derive(Debug, PartialEq, Eq, Structural)]
pub enum UpstreamAuth {
    /// Nothing is added: the upstream is reached with the client's own login.
    External,
    /// The token that the configured auth command prints.
    Command,
    /// The API key in the configured environment variable, when that is set.
    EnvKey,
}

/// The credential source of upstream requests, in order of priority: an
/// upstream that takes the client's login, then an auth command, then the
/// API key variable.
pub open spec fn upstream_auth_spec(requires_openai_auth: bool, has_auth_command: bool) -> UpstreamAuth {
    if requires_openai_auth {
        UpstreamAuth::External
    } else if has_auth_command {
        UpstreamAuth::Command
    } else {
        UpstreamAuth::EnvKey
    }
}

pub fn upstream_auth(config: &UpstreamConfig) -> (r: UpstreamAuth)
    ensures
        r == upstream_auth_spec(config.requires_openai_auth, config.auth_command is Some),
{
    if config.requires_openai_auth {
        UpstreamAuth::External
    } else if config.auth_command.is_some() {
        UpstreamAuth::Command
    } else {
        UpstreamAuth::EnvKey
    }
}

pub open spec fn pair_views(ps: Seq<(String, String)>) -> Seq<(Seq<char>, Seq<char>)> {
    Seq::new(ps.len(), |i: int| (ps[i].0@, ps[i].1@))
}

/// The value found for the `i`-th environment-sourced header, if any.
pub open spec fn env_value_at(values: Seq<Option<String>>, i: int) -> Option<Seq<char>> {
    if 0 <= i < values.len() {
        match values[i] {
            Some(v) => Some(v@),
            None => None,
        }
    } else {
        None
    }
}

/// The environment-sourced headers among the first `n` whose variable is set.
pub open spec fn env_headers(envs: Seq<(String, String)>, values: Seq<Option<String>>, n: nat) -> Seq<(Seq<char>, Seq<char>)>
    decreases n,
{
    if n == 0 {
        Seq::empty()
    } else {
        let before = env_headers(envs, values, (n - 1) as nat);
        match env_value_at(values, n - 1) {
            Some(v) => before.push((envs[n - 1].0@, v)),
            None => before,
        }
    }
}

/// The headers of an upstream request: the bearer credential when there is
/// one, then the configured static headers, then each environment-sourced
/// header whose variable is set. Nothing of the client's own request (its
/// `Authorization` to the shim among it) is passed on.
pub open spec fn upstream_header_list(
    bearer: Option<Seq<char>>,
    statics: Seq<(String, String)>,
    envs: Seq<(String, String)>,
    values: Seq<Option<String>>,
) -> Seq<(Seq<char>, Seq<char>)> {
    let auth = match bearer {
        Some(t) => seq![("authorization"@, "Bearer "@ + t)],
        None => Seq::empty(),
    };
    auth + pair_views(statics) + env_headers(envs, values, envs.len())
}

/// The headers to send upstream, given the bearer credential (if the
/// credential source produced one) and the value of each environment-sourced
/// header's variable, in the order of `env_http_headers`.
pub fn upstream_headers(config: &UpstreamConfig, bearer: Option<&str>, env_values: &Vec<Option<String>>) -> (r: Vec<(String, String)>)
    ensures
        pair_views(r@) == upstream_header_list(
            match bearer { Some(t) => Some(t@), None => None },
            config.http_headers@, config.env_http_headers@, env_values@),
{
    let ghost bv: Option<Seq<char>> = match bearer { Some(t) => Some(t@), None => None };
    let ghost auth: Seq<(Seq<char>, Seq<char>)> = match bv {
        Some(t) => seq![("authorization"@, "Bearer "@ + t)],
        None => Seq::empty(),
    };
    let mut out: Vec<(String, String)> = Vec::new();
    match bearer {
        Some(t) => {
            out.push((owned("authorization"), concat2("Bearer ", t)));
        }
        None => {}
    }
    assert(pair_views(out@) =~= auth);
    let statics = &config.http_headers;
    let mut i: usize = 0;
    while i < statics.len()
        invariant
            i <= statics@.len(),
            pair_views(out@) == auth + pair_views(statics@).take(i as int),
        decreases statics@.len() - i,
    {
        let ghost before = out@;
        let k = statics[i].0.clone();
        let v = statics[i].1.clone();
        out.push((k, v));
        assert(pair_views(out@) =~= pair_views(before).push(pair_views(statics@)[i as int]));
        assert(pair_views(statics@).take(i + 1) =~= pair_views(statics@).take(i as int).push(pair_views(statics@)[i as int]));
        i = i + 1;
    }
    assert(pair_views(statics@).take(statics@.len() as int) =~= pair_views(statics@));
    let ghost head = pair_views(out@);
    let envs = &config.env_http_headers;
    let mut j: usize = 0;
    while j < envs.len()
        invariant
            j <= envs@.len(),
            pair_views(out@) == head + env_headers(envs@, env_values@, j as nat),
        decreases envs@.len() - j,
    {
        let ghost before = out@;
        if j < env_values.len() {
            match &env_values[j] {
                Some(v) => {
                    let k = envs[j].0.clone();
                    let val = v.clone();
                    out.push((k, val));
                    assert(pair_views(out@) =~= pair_views(before).push((envs@[j as int].0@, v@)));
                }
                None => {}
            }
        }
        j = j + 1;
    }
    out
}

/// What an auth command's run gives: its token, trimmed, or why it failed.
pub open spec fn command_token_spec(success: bool, status: Seq<char>, stdout: Seq<char>, stderr: Seq<char>) -> Result<Seq<char>, Seq<char>> {
    if !success {
        Err("auth command exited with "@ + status + ": "@ + trimmed(stderr))
    } else if trimmed(stdout).len() == 0 {
        Err("auth command returned empty token"@)
    } else {
        Ok(trimmed(stdout))
    }
}

/// The token from an auth command's run, given whether it exited
/// successfully, its exit status as printed, and its output as text.
pub fn command_token(success: bool, status: &str, stdout: &str, stderr: &str) -> (r: Result<String, String>)
    ensures
        match command_token_spec(success, status@, stdout@, stderr@) {
            Ok(t) => r matches Ok(v) && v@ == t,
            Err(m) => r matches Err(e) && e@ == m,
        },
{
    if !success {
        let err = trim(stderr);
        let mut m = concat2("auth command exited with ", status);
        m.append(": ");
        m.append(err.as_str());
        return Err(m);
    }
    let token = trim(stdout);
    if token.as_str().is_empty() {
        return Err(owned("auth command returned empty token"));
    }
    Ok(token)
}

/// A token from the auth command, kept until it is due for refresh.
#[derive(Debug)]
pub struct CachedToken {
    pub value: String,
    /// When the token is due for refresh, in milliseconds of a monotonic clock.
    pub expires_at_ms: u64,
}

/// The cached token, while it is not yet due for refresh at `now_ms`.
pub fn cached_token_value(cache: &Option<CachedToken>, now_ms: u64) -> (r: Option<String>)
    ensures
        match cache {
            Some(c) => if c.expires_at_ms > now_ms {
                r matches Some(v) && v@ == c.value@
            } else {
                r is None
            },
            None => r is None,
        },
{
    match cache {
        Some(c) => {
            if c.expires_at_ms > now_ms {
                Some(c.value.clone())
            } else {
                None
            }
        }
        None => None,
    }
}

/// The cache entry for a token fetched at `now_ms`.
pub fn cache_token(token: &str, now_ms: u64, refresh_interval_ms: u64) -> (r: CachedToken)
    requires
        now_ms + refresh_interval_ms <= u64::MAX,
    ensures
        r.value@ == token@,
        r.expires_at_ms == now_ms + refresh_interval_ms,
{
    CachedToken { value: owned(token), expires_at_ms: now_ms + refresh_interval_ms }
}

/// What came of one non-streaming chat request.
#[derive(Debug)]
pub enum ChatAttempt {
    /// The upstream answered with this HTTP status.
    Answered(u16),
    /// The request could not be sent; whether it timed out.
    SendFailed { timed_out: bool },
}

/// What to do after a non-streaming chat request.
#[derive(Debug, PartialEq, Eq, Structural)]
pub enum ChatStep {
    /// Read the response body as the chat response.
    Accept,
    /// Wait this many seconds, then make the next attempt, whose count is `attempt`.
    Retry { attempt: u32, delay_seconds: u64 },
    /// Give up with the upstream's error status.
    GiveUp { status: u16 },
    /// Give up: the upstream timed out.
    TimedOut,
    /// Give up: the request could not be sent.
    Unreachable,
}

pub open spec fn pow2_u64(n: nat) -> nat
    decreases n,
{
    if n == 0 { 1 } else { 2 * pow2_u64((n - 1) as nat) }
}

/// Whether an upstream status is worth a retry: rate limiting or a server error.
pub open spec fn retryable_status(status: u16) -> bool {
    status == 429 || (500 <= status && status < 600)
}

/// The step after `attempt` retries (of at most `max_retries`).
pub open spec fn chat_step(attempt: u32, max_retries: u32, outcome: ChatAttempt) -> ChatStep {
    match outcome {
        ChatAttempt::Answered(status) =>
            if 200 <= status && status < 300 {
                ChatStep::Accept
            } else if retryable_status(status) && attempt + 1 <= max_retries {
                ChatStep::Retry { attempt: (attempt + 1) as u32, delay_seconds: pow2_u64((attempt + 1) as nat) as u64 }
            } else {
                ChatStep::GiveUp { status }
            },
        ChatAttempt::SendFailed { timed_out } =>
            if timed_out {
                ChatStep::TimedOut
            } else if attempt + 1 <= max_retries {
                ChatStep::Retry { attempt: (attempt + 1) as u32, delay_seconds: pow2_u64((attempt + 1) as nat) as u64 }
            } else {
                ChatStep::Unreachable
            },
    }
}

fn pow2_exec(n: u32) -> (r: u64)
    requires
        n < 64,
    ensures
        r == pow2_u64(n as nat),
{
    let mut r: u64 = 1;
    let mut i: u32 = 0;
    while i < n
        invariant
            i <= n < 64,
            r == pow2_u64(i as nat),
        decreases n - i,
    {
        proof {
            lemma_pow2_monotone((i + 1) as nat, 63);
            lemma_pow2_63();
        }
        r = r * 2;
        i = i + 1;
    }
    r
}

proof fn lemma_pow2_monotone(i: nat, j: nat)
    requires
        i <= j,
    ensures
        pow2_u64(i) <= pow2_u64(j),
    decreases j,
{
    if i < j {
        lemma_pow2_monotone(i, (j - 1) as nat);
    }
}

proof fn lemma_pow2_63()
    ensures
        pow2_u64(63) == 0x8000_0000_0000_0000,
{
    reveal_with_fuel(pow2_u64, 64);
}

/// Decides what follows a non-streaming chat request: accept the answer,
/// retry after `2^attempt` seconds, or give up. A retry count of 64 or more
/// has no delay that fits in 64 bits, so such a retry is not asked for.
pub fn chat_retry_step(attempt: u32, max_retries: u32, outcome: &ChatAttempt) -> (r: ChatStep)
    requires
        !(attempt + 1 <= max_retries && attempt + 1 >= 64),
    ensures
        r == chat_step(attempt, max_retries, *outcome),
{
    match outcome {
        ChatAttempt::Answered(status) => {
            let status = *status;
            if 200 <= status && status < 300 {
                ChatStep::Accept
            } else if (status == 429 || (500 <= status && status < 600)) && attempt < max_retries {
                let next = attempt + 1;
                ChatStep::Retry { attempt: next, delay_seconds: pow2_exec(next) }
            } else {
                ChatStep::GiveUp { status }
            }
        }
        ChatAttempt::SendFailed { timed_out } => {
            if *timed_out {
                ChatStep::TimedOut
            } else if attempt < max_retries {
                let next = attempt + 1;
                ChatStep::Retry { attempt: next, delay_seconds: pow2_exec(next) }
            } else {
                ChatStep::Unreachable
            }
        }
    }
}

/// A chat request is retried at most `max_retries` times, each retry counts
/// one more attempt and waits twice as long as the one before; a success is
/// always accepted and a timeout never retried.
pub proof fn law_chat_retries_bounded(attempt: u32, max_retries: u32, outcome: ChatAttempt)
    ensures
        chat_step(attempt, max_retries, outcome) matches ChatStep::Retry { attempt: next, delay_seconds } ==> {
            &&& next == attempt + 1
            &&& next <= max_retries
            &&& delay_seconds == pow2_u64(next as nat) as u64
        },
        (outcome matches ChatAttempt::Answered(status) && 200 <= status < 300) ==> chat_step(attempt, max_retries, outcome) == ChatStep::Accept,
        outcome == (ChatAttempt::SendFailed { timed_out: true }) ==> chat_step(attempt, max_retries, outcome) == ChatStep::TimedOut,
        attempt >= max_retries ==> !(chat_step(attempt, max_retries, outcome) is Retry),
{
}

/// Each retry waits twice as long as the one before it.
pub proof fn law_retry_delay_doubles(n: nat)
    ensures
        pow2_u64(n + 1) == 2 * pow2_u64(n),
{
}

/// What the models endpoint answers when the upstream's list cannot be had.
pub fn empty_models_list() -> (r: JsonValue)
    ensures
        r@ == JsonView::Object(seq![("object"@, JsonView::Str("list"@)), ("data"@, JsonView::Array(Seq::empty()))]),
{
    let mut f: Vec<(String, JsonValue)> = Vec::new();
    push_member(&mut f, "object", string_value("list"));
    let data = array_of(Vec::new());
    assert(values_view(Seq::<JsonValue>::empty()) =~= Seq::<JsonView>::empty());
    push_member(&mut f, "data", data);
    let r = object_of(f);
    assert(r@->Object_0 =~= seq![("object"@, JsonView::Str("list"@)), ("data"@, JsonView::Array(Seq::empty()))]);
    r
}

// ---------------------------------------------------------------------------
// What is recorded of an upstream response.

pub open spec fn header_record(name: Seq<char>, value: Option<Seq<char>>) -> (Seq<char>, JsonView) {
    (name, JsonView::Str(if sensitive_header(name) {
        "[REDACTED]"@
    } else {
        match value {
            Some(v) => truncated(v, 2048),
            None => "[NON_UTF8]"@,
        }
    }))
}

/// The headers of an upstream response as recorded for debugging: names in
/// lowercase as given, credentials redacted, values cut to 2048 characters,
/// values that are not text marked.
pub open spec fn headers_record(headers: Seq<(String, Option<String>)>) -> JsonView {
    JsonView::Object(Seq::new(headers.len(), |i: int| header_record(headers[i].0@,
        match headers[i].1 { Some(v) => Some(v@), None => None })))
}

/// The debug record of the headers of an upstream response; each name is
/// already in lowercase, each value is given when it is text.
pub fn response_headers_json(headers: &Vec<(String, Option<String>)>) -> (r: JsonValue)
    ensures
        r@ == headers_record(headers@),
{
    let mut f: Vec<(String, JsonValue)> = Vec::new();
    let mut i: usize = 0;
    while i < headers.len()
        invariant
            i <= headers@.len(),
            members_view(f@) == headers_record(headers@)->Object_0.take(i as int),
        decreases headers@.len() - i,
    {
        let name = headers[i].0.as_str();
        let value = if is_sensitive_header(name) {
            owned("[REDACTED]")
        } else {
            match &headers[i].1 {
                Some(v) => truncate_for_debug(v.as_str(), 2048),
                None => owned("[NON_UTF8]"),
            }
        };
        push_member(&mut f, name, JsonValue::Str(value));
        i = i + 1;
        assert(members_view(f@) =~= headers_record(headers@)->Object_0.take(i as int));
    }
    let r = object_of(f);
    assert(headers_record(headers@)->Object_0.take(headers@.len() as int) =~= headers_record(headers@)->Object_0);
    r
}

/// No credential reaches the debug record: the value recorded for a
/// sensitive header is always the redaction marker.
pub proof fn law_credentials_never_recorded(headers: Seq<(String, Option<String>)>, i: int)
    requires
        0 <= i < headers.len(),
        sensitive_header(headers[i].0@),
    ensures
        headers_record(headers)->Object_0[i] == (headers[i].0@, JsonView::Str("[REDACTED]"@)),
{
}

/// What is recorded of an upstream response: its status, its HTTP version
/// as printed, and the record of its headers.
#[derive(Debug)]
pub struct UpstreamResponseMetadata {
    pub status: u16,
    pub http_version: String,
    pub headers: JsonValue,
}

impl UpstreamResponseMetadata {
    /// `{"status": .., "http_version": .., "headers": ..}`.
    pub fn to_json(&self) -> (r: JsonValue)
        ensures
            r@ == JsonView::Object(seq![
                ("status"@, JsonView::Number(NumberView::PosInt(self.status as u64))),
                ("http_version"@, JsonView::Str(self.http_version@)),
                ("headers"@, self.headers@),
            ]),
    {
        let mut f: Vec<(String, JsonValue)> = Vec::new();
        push_member(&mut f, "status", JsonValue::Number(JsonNumber::PosInt(self.status as u64)));
        push_member(&mut f, "http_version", string_value(self.http_version.as_str()));
        push_member(&mut f, "headers", self.headers.deep_clone());
        let r = object_of(f);
        assert(r@->Object_0 =~= seq![
            ("status"@, JsonView::Number(NumberView::PosInt(self.status as u64))),
            ("http_version"@, JsonView::Str(self.http_version@)),
            ("headers"@, self.headers@),
        ]);
        r
    }
}

/// How an upstream stream broke.
#[derive(Debug)]
pub enum StreamBreak {
    /// The transport failed: the error's classification flags, in the order
    /// `is_timeout`, `is_decode`, `is_body`, `is_connect`, `is_request`,
    /// `is_status`, and the URL involved, if known.
    Transport { flags: (bool, bool, bool, bool, bool, bool), url: Option<String> },
    /// The stream was not valid UTF-8.
    Utf8,
    /// The stream was not valid server-sent events.
    Parser,
}

pub open spec fn classification_view(f: (bool, bool, bool, bool, bool, bool)) -> JsonView {
    JsonView::Object(seq![
        ("is_timeout"@, JsonView::Bool(f.0)),
        ("is_decode"@, JsonView::Bool(f.1)),
        ("is_body"@, JsonView::Bool(f.2)),
        ("is_connect"@, JsonView::Bool(f.3)),
        ("is_request"@, JsonView::Bool(f.4)),
        ("is_status"@, JsonView::Bool(f.5)),
    ])
}

/// The detail recorded when an upstream stream breaks: the error's message,
/// its chain of causes and the upstream response's metadata, then what kind
/// of break it was (with a transport error's classification and redacted URL).
pub open spec fn stream_error_view(message: Seq<char>, source_chain: Seq<char>, upstream_response: JsonView, kind: StreamBreak) -> JsonView {
    let base = seq![
        ("message"@, JsonView::Str(message)),
        ("source_chain"@, JsonView::Str(source_chain)),
        ("upstream_response"@, upstream_response),
    ];
    JsonView::Object(match kind {
        StreamBreak::Transport { flags, url } => {
            let with_kind = base.push(("kind"@, JsonView::Str("transport"@))).push(("classification"@, classification_view(flags)));
            match url {
                Some(u) => with_kind.push(("url"@, JsonView::Str(before_first(u@, '?')))),
                None => with_kind,
            }
        },
        StreamBreak::Utf8 => base.push(("kind"@, JsonView::Str("utf8"@))),
        StreamBreak::Parser => base.push(("kind"@, JsonView::Str("parser"@))),
    })
}

/// The detail recorded when an upstream stream breaks.
pub fn upstream_stream_error_json(message: &str, source_chain: &str, upstream_response: JsonValue, kind: &StreamBreak) -> (r: JsonValue)
    ensures
        r@ == stream_error_view(message@, source_chain@, upstream_response@, *kind),
{
    let ghost up = upstream_response@;
    let mut f: Vec<(String, JsonValue)> = Vec::new();
    push_member(&mut f, "message", string_value(message));
    push_member(&mut f, "source_chain", string_value(source_chain));
    push_member(&mut f, "upstream_response", upstream_response);
    match kind {
        StreamBreak::Transport { flags, url } => {
            push_member(&mut f, "kind", string_value("transport"));
            let mut c: Vec<(String, JsonValue)> = Vec::new();
            push_member(&mut c, "is_timeout", JsonValue::Bool(flags.0));
            push_member(&mut c, "is_decode", JsonValue::Bool(flags.1));
            push_member(&mut c, "is_body", JsonValue::Bool(flags.2));
            push_member(&mut c, "is_connect", JsonValue::Bool(flags.3));
            push_member(&mut c, "is_request", JsonValue::Bool(flags.4));
            push_member(&mut c, "is_status", JsonValue::Bool(flags.5));
            let cj = object_of(c);
            assert(cj@->Object_0 =~= classification_view(*flags)->Object_0);
            push_member(&mut f, "classification", cj);
            match url {
                Some(u) => push_member(&mut f, "url", JsonValue::Str(redact_url_for_debug(u.as_str()))),
                None => {}
            }
        }
        StreamBreak::Utf8 => push_member(&mut f, "kind", string_value("utf8")),
        StreamBreak::Parser => push_member(&mut f, "kind", string_value("parser")),
    }
    let r = object_of(f);
    assert(r@->Object_0 =~= stream_error_view(message@, source_chain@, up, *kind)->Object_0);
    r
}

} // verus!
