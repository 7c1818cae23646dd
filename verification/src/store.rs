//! The in-memory response store: response objects with their canonical
//! conversation, whose messages are kept once per content hash; debug
//! artifacts with an expiry of their own; and the reasoning recorded for tool
//! calls, looked up per conversation and call id.
use vstd::prelude::*;
use sha2::Digest;
use crate::json::{JsonValue, JsonView, json_text, hex_digit, to_json_text};
use crate::chat::{ChatMessage, ChatMessageV, ChatContent, ChatContentPart, ChatToolCall, ChatFunctionCall, message_json, message_json_exec, tool_calls_view, messages_view};
use crate::text::{owned, str_eq, seq_lt};

verus! {

// ---------------------------------------------------------------------------
// Content hashes.

/// The SHA-256 digest of a byte sequence.
pub uninterp spec fn sha256_digest(data: Seq<u8>) -> Seq<u8>;

/// Wraps `sha2::Sha256::digest`: the SHA-256 digest of `data`, as its 32 bytes.
#[verifier::external_body]
fn sha256(data: &[u8]) -> (r: Vec<u8>)
    ensures
        r@ == sha256_digest(data@),
        r@.len() == 32,
{
    sha2::Sha256::digest(data).to_vec()
}

/// Lowercase hexadecimal text of bytes, two digits per byte.
pub open spec fn hex_text(bytes: Seq<u8>) -> Seq<char>
    decreases bytes.len(),
{
    if bytes.len() == 0 {
        Seq::empty()
    } else {
        hex_text(bytes.drop_last()) + seq![hex_digit((bytes.last() / 16) as nat), hex_digit((bytes.last() % 16) as nat)]
    }
}

fn hex_exec(bytes: &Vec<u8>) -> (r: String)
    ensures
        r@ == hex_text(bytes@),
{
    let mut out = String::new();
    let mut i: usize = 0;
    while i < bytes.len()
        invariant
            i <= bytes@.len(),
            out@ == hex_text(bytes@.take(i as int)),
        decreases bytes@.len() - i,
    {
        assert(bytes@.take(i + 1).drop_last() =~= bytes@.take(i as int));
        let b = bytes[i];
        crate::text::push_char(&mut out, hex_digit_of(b / 16));
        crate::text::push_char(&mut out, hex_digit_of(b % 16));
        i = i + 1;
    }
    assert(bytes@.take(bytes@.len() as int) =~= bytes@);
    out
}

fn hex_digit_of(d: u8) -> (c: char)
    requires
        d < 16,
    ensures
        c == hex_digit(d as nat),
{
    if d < 10 {
        crate::text::digit(d as u64)
    } else if d == 10 {
        'a'
    } else if d == 11 {
        'b'
    } else if d == 12 {
        'c'
    } else if d == 13 {
        'd'
    } else if d == 14 {
        'e'
    } else {
        'f'
    }
}

/// The content hash of a message: the SHA-256 of its JSON text, in hex.
pub open spec fn message_fingerprint(m: ChatMessageV) -> Seq<char> {
    hex_text(sha256_digest(vstd::utf8::encode_utf8(json_text(message_json(m)))))
}

/// The content hash of a message, with the JSON text it was taken of.
pub fn message_hash(message: &ChatMessage) -> (r: (String, String))
    ensures
        r.0@ == message_fingerprint(message@),
        r.1@ == json_text(message_json(message@)),
{
    let json = to_json_text(&message_json_exec(message));
    let digest = sha256(json.as_str().as_bytes());
    (hex_exec(&digest), json)
}

/// The conversation a response belongs to: its own, or `default`.
pub fn default_conversation_id(conversation_id: Option<&str>) -> (r: String)
    ensures
        r@ == match conversation_id {
            Some(c) => c@,
            None => "default"@,
        },
{
    match conversation_id {
        Some(c) => owned(c),
        None => owned("default"),
    }
}

// ---------------------------------------------------------------------------
// Copies of messages.

fn clone_opt_string(o: &Option<String>) -> (r: Option<String>)
    ensures
        r == *o,
{
    match o {
        Some(s) => Some(s.clone()),
        None => None,
    }
}

fn clone_content(c: &ChatContent) -> (r: ChatContent)
    ensures
        r@ == c@,
{
    match c {
        ChatContent::Text(s) => ChatContent::Text(s.clone()),
        ChatContent::Parts(parts) => {
            let mut out: Vec<ChatContentPart> = Vec::new();
            let mut i: usize = 0;
            while i < parts.len()
                invariant
                    i <= parts@.len(),
                    out@.len() == i,
                    forall|k: int| 0 <= k < i ==> (#[trigger] out@[k])@ == parts@[k]@,
                decreases parts@.len() - i,
            {
                let p = match &parts[i] {
                    ChatContentPart::Text { text } => ChatContentPart::Text { text: text.clone() },
                    ChatContentPart::ImageUrl { url } => ChatContentPart::ImageUrl { url: url.clone() },
                };
                out.push(p);
                i = i + 1;
            }
            let r = ChatContent::Parts(out);
            assert(r@->Parts_0 =~= c@->Parts_0);
            r
        }
    }
}

fn clone_tool_calls(tcs: &Vec<ChatToolCall>) -> (r: Vec<ChatToolCall>)
    ensures
        tool_calls_view(r@) == tool_calls_view(tcs@),
{
    let mut out: Vec<ChatToolCall> = Vec::new();
    let mut i: usize = 0;
    while i < tcs.len()
        invariant
            i <= tcs@.len(),
            out@.len() == i,
            forall|k: int| 0 <= k < i ==> (#[trigger] out@[k])@ == tcs@[k]@,
        decreases tcs@.len() - i,
    {
        let tc = &tcs[i];
        out.push(ChatToolCall {
            id: tc.id.clone(),
            call_type: tc.call_type.clone(),
            function: ChatFunctionCall { name: clone_opt_string(&tc.function.name), arguments: tc.function.arguments.clone() },
        });
        i = i + 1;
    }
    assert(tool_calls_view(out@) =~= tool_calls_view(tcs@));
    out
}

/// A copy of a message.
pub fn clone_message(m: &ChatMessage) -> (r: ChatMessage)
    ensures
        r@ == m@,
{
    match m {
        ChatMessage::System { content, name } => ChatMessage::System { content: clone_content(content), name: clone_opt_string(name) },
        ChatMessage::User { content, name } => ChatMessage::User { content: clone_content(content), name: clone_opt_string(name) },
        ChatMessage::Assistant { content, name, tool_calls, reasoning_content } => {
            let content = match content {
                Some(c) => Some(clone_content(c)),
                None => None,
            };
            let tool_calls = match tool_calls {
                Some(t) => {
                    Some(clone_tool_calls(t))
                }
                None => None,
            };
            ChatMessage::Assistant { content, name: clone_opt_string(name), tool_calls, reasoning_content: clone_opt_string(reasoning_content) }
        }
        ChatMessage::Tool { content, tool_call_id } => ChatMessage::Tool { content: clone_content(content), tool_call_id: tool_call_id.clone() },
    }
}

// ---------------------------------------------------------------------------
// Keyed sequences: the store keeps each table as a sequence in which the
// last entry with a key is the one that counts.

/// The last element of `s` whose key is `k`.
pub open spec fn last_with<A, K>(s: Seq<A>, key: spec_fn(A) -> K, k: K) -> Option<A>
    decreases s.len(),
{
    if s.len() == 0 {
        None
    } else if key(s.last()) == k {
        Some(s.last())
    } else {
        last_with(s.drop_last(), key, k)
    }
}

/// No two elements share a key.
pub open spec fn keys_unique<A, K>(s: Seq<A>, key: spec_fn(A) -> K) -> bool {
    forall|i: int, j: int| 0 <= i < s.len() && 0 <= j < s.len() && key(#[trigger] s[i]) == key(#[trigger] s[j]) ==> i == j
}

proof fn lemma_last_with_none<A, K>(s: Seq<A>, key: spec_fn(A) -> K, k: K)
    ensures
        last_with(s, key, k) is None <==> forall|i: int| 0 <= i < s.len() ==> key(#[trigger] s[i]) != k,
        last_with(s, key, k) matches Some(a) ==> exists|i: int| 0 <= i < s.len() && #[trigger] s[i] == a && key(a) == k,
    decreases s.len(),
{
    if s.len() > 0 {
        lemma_last_with_none(s.drop_last(), key, k);
        if key(s.last()) != k {
            assert forall|i: int| 0 <= i < s.len() - 1 implies #[trigger] s[i] == s.drop_last()[i] by {}
            if let Some(a) = last_with(s.drop_last(), key, k) {
                let i = choose|i: int| 0 <= i < s.drop_last().len() && #[trigger] s.drop_last()[i] == a && key(a) == k;
                assert(s[i] == a);
            }
        }
    }
}

/// Dropping every element with key `k0` hides `k0` and keeps every other key.
proof fn lemma_last_with_drop_key<A, K>(s: Seq<A>, key: spec_fn(A) -> K, k0: K, k: K)
    ensures
        last_with(s.filter(|a: A| key(a) != k0), key, k) == if k == k0 { None } else { last_with(s, key, k) },
    decreases s.len(),
{
    reveal(Seq::filter);
    if s.len() > 0 {
        lemma_last_with_drop_key(s.drop_last(), key, k0, k);
        let f = s.drop_last().filter(|a: A| key(a) != k0);
        if key(s.last()) != k0 {
            assert(s.filter(|a: A| key(a) != k0) == f.push(s.last()));
            assert(f.push(s.last()).drop_last() =~= f);
        }
    }
}

/// With unique keys, keeping the elements that satisfy `p` keeps the element
/// of each key exactly when it satisfies `p`.
proof fn lemma_last_with_keep<A, K>(s: Seq<A>, key: spec_fn(A) -> K, p: spec_fn(A) -> bool, k: K)
    requires
        keys_unique(s, key),
    ensures
        last_with(s.filter(p), key, k) == match last_with(s, key, k) {
            Some(a) => if p(a) { Some(a) } else { None },
            None => None,
        },
    decreases s.len(),
{
    reveal(Seq::filter);
    if s.len() > 0 {
        let d = s.drop_last();
        assert forall|i: int, j: int| 0 <= i < d.len() && 0 <= j < d.len() && key(#[trigger] d[i]) == key(#[trigger] d[j]) implies i == j by {
            assert(d[i] == s[i] && d[j] == s[j]);
        }
        lemma_last_with_keep(d, key, p, k);
        let f = d.filter(p);
        if p(s.last()) {
            assert(s.filter(p) == f.push(s.last()));
            assert(f.push(s.last()).drop_last() =~= f);
        }
        if key(s.last()) == k {
            lemma_last_with_none(d, key, k);
            assert forall|i: int| 0 <= i < d.len() implies key(#[trigger] d[i]) != k by {
                assert(d[i] == s[i]);
                assert(key(s[i]) == key(s[s.len() - 1]) ==> i == s.len() - 1);
            }
        }
    }
}

proof fn lemma_filter_from<A>(s: Seq<A>, p: spec_fn(A) -> bool)
    ensures
        forall|i: int| 0 <= i < s.filter(p).len() ==> exists|j: int| 0 <= j < s.len() && s[j] == #[trigger] s.filter(p)[i],
    decreases s.len(),
{
    reveal(Seq::filter);
    if s.len() > 0 {
        let d = s.drop_last();
        lemma_filter_from(d, p);
        let f = d.filter(p);
        assert forall|i: int| 0 <= i < s.filter(p).len() implies exists|j: int| 0 <= j < s.len() && s[j] == #[trigger] s.filter(p)[i] by {
            if i < f.len() {
                assert(s.filter(p)[i] == f[i]);
                let j = choose|j: int| 0 <= j < d.len() && d[j] == #[trigger] f[i];
                assert(s[j] == d[j]);
            } else {
                assert(s.filter(p)[i] == s[s.len() - 1]);
            }
        }
    }
}

proof fn lemma_keys_unique_filter<A, K>(s: Seq<A>, key: spec_fn(A) -> K, p: spec_fn(A) -> bool)
    requires
        keys_unique(s, key),
    ensures
        keys_unique(s.filter(p), key),
    decreases s.len(),
{
    reveal(Seq::filter);
    if s.len() > 0 {
        let d = s.drop_last();
        assert forall|i: int, j: int| 0 <= i < d.len() && 0 <= j < d.len() && key(#[trigger] d[i]) == key(#[trigger] d[j]) implies i == j by {
            assert(d[i] == s[i] && d[j] == s[j]);
        }
        lemma_keys_unique_filter(d, key, p);
        lemma_filter_from(d, p);
        let f = d.filter(p);
        if p(s.last()) {
            let fp = f.push(s.last());
            assert(s.filter(p) == fp);
            assert forall|i: int| 0 <= i < f.len() implies key(#[trigger] f[i]) != key(s.last()) by {
                let j = choose|j: int| 0 <= j < d.len() && d[j] == #[trigger] f[i];
                assert(s[j] == d[j]);
                assert(key(s[j]) == key(s[s.len() - 1]) ==> j == s.len() - 1);
            }
            assert forall|i: int, j: int| 0 <= i < fp.len() && 0 <= j < fp.len() && key(#[trigger] fp[i]) == key(#[trigger] fp[j]) implies i == j by {
                if i < f.len() && j < f.len() {
                    assert(fp[i] == f[i] && fp[j] == f[j]);
                } else if i < f.len() {
                    assert(fp[i] == f[i]);
                } else if j < f.len() {
                    assert(fp[j] == f[j]);
                }
            }
        } else {
            assert(s.filter(p) == f);
        }
    }
}

// ---------------------------------------------------------------------------
// Stored data.

/// A response to keep, with the conversation that produced it.
#[derive(Debug)]
pub struct ResponseState {
    pub id: String,
    pub conversation_id: Option<String>,
    pub model: String,
    pub created_at: i64,
    pub status: String,
    pub response_json: JsonValue,
    pub previous_response_id: Option<String>,
    pub canonical_messages: Vec<ChatMessage>,
}

/// The request, upstream traffic and notes of one response, for debugging.
#[derive(Debug)]
pub struct DebugArtifact {
    pub id: String,
    pub conversation_id: Option<String>,
    pub model: String,
    pub created_at: i64,
    pub status: String,
    pub request_json: JsonValue,
    pub mapped_request_json: JsonValue,
    pub upstream_error: Option<JsonValue>,
    pub debug_annotations: Vec<String>,
    pub upstream_sse_events: Vec<JsonValue>,
    pub response_sse_events: Vec<JsonValue>,
}

/// A debug artifact as it is served, with the time it expires.
#[derive(Debug)]
pub struct DebugArtifactView {
    pub id: String,
    pub model: String,
    pub created_at: i64,
    pub status: String,
    pub request_json: JsonValue,
    pub mapped_request_json: JsonValue,
    pub upstream_error: Option<JsonValue>,
    pub debug_annotations: Vec<String>,
    pub upstream_sse_events: Vec<JsonValue>,
    pub response_sse_events: Vec<JsonValue>,
    pub conversation_id: Option<String>,
    pub artifact_expires_at: i64,
}

pub struct DebugArtifactV {
    pub id: Seq<char>,
    pub conversation_id: Option<Seq<char>>,
    pub model: Seq<char>,
    pub created_at: i64,
    pub status: Seq<char>,
    pub request_json: JsonView,
    pub mapped_request_json: JsonView,
    pub upstream_error: Option<JsonView>,
    pub debug_annotations: Seq<Seq<char>>,
    pub upstream_sse_events: Seq<JsonView>,
    pub response_sse_events: Seq<JsonView>,
}

pub open spec fn ostr(o: Option<String>) -> Option<Seq<char>> {
    match o {
        Some(s) => Some(s@),
        None => None,
    }
}

pub open spec fn ojson(o: Option<JsonValue>) -> Option<JsonView> {
    match o {
        Some(v) => Some(v@),
        None => None,
    }
}

pub open spec fn strs(v: Seq<String>) -> Seq<Seq<char>> {
    Seq::new(v.len(), |i: int| v[i]@)
}

pub open spec fn jsons(v: Seq<JsonValue>) -> Seq<JsonView> {
    Seq::new(v.len(), |i: int| v[i]@)
}

impl View for DebugArtifact {
    type V = DebugArtifactV;

    open spec fn view(&self) -> DebugArtifactV {
        DebugArtifactV {
            id: self.id@,
            conversation_id: ostr(self.conversation_id),
            model: self.model@,
            created_at: self.created_at,
            status: self.status@,
            request_json: self.request_json@,
            mapped_request_json: self.mapped_request_json@,
            upstream_error: ojson(self.upstream_error),
            debug_annotations: strs(self.debug_annotations@),
            upstream_sse_events: jsons(self.upstream_sse_events@),
            response_sse_events: jsons(self.response_sse_events@),
        }
    }
}

impl View for DebugArtifactView {
    type V = (DebugArtifactV, i64);

    open spec fn view(&self) -> (DebugArtifactV, i64) {
        (DebugArtifactV {
            id: self.id@,
            conversation_id: ostr(self.conversation_id),
            model: self.model@,
            created_at: self.created_at,
            status: self.status@,
            request_json: self.request_json@,
            mapped_request_json: self.mapped_request_json@,
            upstream_error: ojson(self.upstream_error),
            debug_annotations: strs(self.debug_annotations@),
            upstream_sse_events: jsons(self.upstream_sse_events@),
            response_sse_events: jsons(self.response_sse_events@),
        }, self.artifact_expires_at)
    }
}

/// A stored response: its JSON, when it expires, and the content hashes of
/// its canonical messages in order.
#[derive(Debug)]
struct ResponseRecord {
    id: String,
    response_json: JsonValue,
    expires_at: i64,
    refs: Vec<String>,
}

pub struct ResponseRecordV {
    pub id: Seq<char>,
    pub response_json: JsonView,
    pub expires_at: i64,
    pub refs: Seq<Seq<char>>,
}

impl View for ResponseRecord {
    type V = ResponseRecordV;

    closed spec fn view(&self) -> ResponseRecordV {
        ResponseRecordV { id: self.id@, response_json: self.response_json@, expires_at: self.expires_at, refs: strs(self.refs@) }
    }
}

/// A canonical message, kept once for all responses that share it.
#[derive(Debug)]
struct MessageBlob {
    hash: String,
    message: ChatMessage,
}

impl View for MessageBlob {
    type V = (Seq<char>, ChatMessageV);

    closed spec fn view(&self) -> (Seq<char>, ChatMessageV) {
        (self.hash@, self.message@)
    }
}

#[derive(Debug)]
struct DebugArtifactRecord {
    artifact: DebugArtifact,
    expires_at: i64,
}

impl View for DebugArtifactRecord {
    type V = (DebugArtifactV, i64);

    closed spec fn view(&self) -> (DebugArtifactV, i64) {
        (self.artifact@, self.expires_at)
    }
}

/// The reasoning recorded for a tool call of a conversation.
#[derive(Debug)]
struct ReasoningEntry {
    conversation_id: String,
    call_id: String,
    response_id: String,
    reasoning: String,
}

pub struct ReasoningV {
    pub conversation_id: Seq<char>,
    pub call_id: Seq<char>,
    pub response_id: Seq<char>,
    pub reasoning: Seq<char>,
}

impl View for ReasoningEntry {
    type V = ReasoningV;

    closed spec fn view(&self) -> ReasoningV {
        ReasoningV {
            conversation_id: self.conversation_id@,
            call_id: self.call_id@,
            response_id: self.response_id@,
            reasoning: self.reasoning@,
        }
    }
}

/// Responses, debug artifacts and tool call reasoning, kept in memory.
#[derive(Debug)]
pub struct MemoryStore {
    responses: Vec<ResponseRecord>,
    blobs: Vec<MessageBlob>,
    debug_artifacts: Vec<DebugArtifactRecord>,
    reasoning: Vec<ReasoningEntry>,
    ttl_seconds: u64,
    debug_ttl_seconds: u64,
}

/// The mathematical content of the store.
pub struct StoreV {
    pub responses: Seq<ResponseRecordV>,
    pub blobs: Seq<(Seq<char>, ChatMessageV)>,
    pub debug: Seq<(DebugArtifactV, i64)>,
    pub reasoning: Seq<ReasoningV>,
    pub ttl: u64,
    pub debug_ttl: u64,
}

pub open spec fn views_of<T: View>(v: Seq<T>) -> Seq<T::V> {
    Seq::new(v.len(), |i: int| v[i]@)
}

impl View for MemoryStore {
    type V = StoreV;

    closed spec fn view(&self) -> StoreV {
        StoreV {
            responses: views_of(self.responses@),
            blobs: views_of(self.blobs@),
            debug: views_of(self.debug_artifacts@),
            reasoning: views_of(self.reasoning@),
            ttl: self.ttl_seconds,
            debug_ttl: self.debug_ttl_seconds,
        }
    }
}

pub open spec fn response_id(r: ResponseRecordV) -> Seq<char> {
    r.id
}

pub open spec fn blob_hash(b: (Seq<char>, ChatMessageV)) -> Seq<char> {
    b.0
}

pub open spec fn debug_id(d: (DebugArtifactV, i64)) -> Seq<char> {
    d.0.id
}

pub open spec fn reasoning_key(e: ReasoningV) -> (Seq<char>, Seq<char>) {
    (e.conversation_id, e.call_id)
}

/// The message stored under a hash.
pub open spec fn blob_of(blobs: Seq<(Seq<char>, ChatMessageV)>, h: Seq<char>) -> Option<(Seq<char>, ChatMessageV)> {
    last_with(blobs, |b: (Seq<char>, ChatMessageV)| blob_hash(b), h)
}

/// The messages a list of hashes stands for, if each is stored.
pub open spec fn resolved(blobs: Seq<(Seq<char>, ChatMessageV)>, refs: Seq<Seq<char>>) -> Option<Seq<ChatMessageV>>
    decreases refs.len(),
{
    if refs.len() == 0 {
        Some(Seq::empty())
    } else {
        match (resolved(blobs, refs.drop_last()), blob_of(blobs, refs.last())) {
            (Some(ms), Some(b)) => Some(ms.push(b.1)),
            _ => None,
        }
    }
}

impl StoreV {
    /// The stored record of a response.
    pub open spec fn response(self, id: Seq<char>) -> Option<ResponseRecordV> {
        last_with(self.responses, |r: ResponseRecordV| response_id(r), id)
    }

    /// The JSON of a stored response.
    pub open spec fn json_of(self, id: Seq<char>) -> Option<JsonView> {
        match self.response(id) {
            Some(r) => Some(r.response_json),
            None => None,
        }
    }

    /// The canonical messages of a stored response.
    pub open spec fn messages_of(self, id: Seq<char>) -> Option<Seq<ChatMessageV>> {
        match self.response(id) {
            Some(r) => resolved(self.blobs, r.refs),
            None => None,
        }
    }

    /// The stored debug artifact of a response, with its expiry.
    pub open spec fn debug_of(self, id: Seq<char>) -> Option<(DebugArtifactV, i64)> {
        last_with(self.debug, |d: (DebugArtifactV, i64)| debug_id(d), id)
    }

    /// The reasoning recorded for a tool call of a conversation.
    pub open spec fn reasoning_of(self, conversation_id: Seq<char>, call_id: Seq<char>) -> Option<ReasoningV> {
        last_with(self.reasoning, |e: ReasoningV| reasoning_key(e), (conversation_id, call_id))
    }

    /// Every stored response's messages are stored, and reasoning is kept once
    /// per conversation and call.
    pub open spec fn wf(self) -> bool {
        &&& forall|i: int, j: int| 0 <= i < self.responses.len() && 0 <= j < self.responses[i].refs.len()
            ==> (#[trigger] blob_of(self.blobs, self.responses[i].refs[j])) is Some
        &&& keys_unique(self.reasoning, |e: ReasoningV| reasoning_key(e))
        &&& keys_unique(self.responses, |r: ResponseRecordV| response_id(r))
        &&& keys_unique(self.debug, |d: (DebugArtifactV, i64)| debug_id(d))
    }
}

/// Keeping the elements whose key passes `q` keeps exactly the keys that pass.
proof fn lemma_last_with_keep_keys<A, K>(s: Seq<A>, key: spec_fn(A) -> K, p: spec_fn(A) -> bool, q: spec_fn(K) -> bool, k: K)
    requires
        forall|a: A| #[trigger] p(a) == q(key(a)),
    ensures
        last_with(s.filter(p), key, k) == if q(k) { last_with(s, key, k) } else { None },
    decreases s.len(),
{
    reveal(Seq::filter);
    if s.len() > 0 {
        lemma_last_with_keep_keys(s.drop_last(), key, p, q, k);
        let f = s.drop_last().filter(p);
        if p(s.last()) {
            assert(s.filter(p) == f.push(s.last()));
            assert(f.push(s.last()).drop_last() =~= f);
        }
    }
}

proof fn lemma_last_with_push<A, K>(s: Seq<A>, key: spec_fn(A) -> K, a: A, k: K)
    ensures
        last_with(s.push(a), key, k) == if key(a) == k { Some(a) } else { last_with(s, key, k) },
{
    assert(s.push(a).drop_last() =~= s);
}

// ---------------------------------------------------------------------------
// Interning messages.

/// The content hashes of messages.
pub open spec fn fingerprints(ms: Seq<ChatMessageV>) -> Seq<Seq<char>> {
    Seq::new(ms.len(), |i: int| message_fingerprint(ms[i]))
}

/// The blobs after interning messages in order: a message is added under its
/// hash unless a message is already stored there.
pub open spec fn interned(blobs: Seq<(Seq<char>, ChatMessageV)>, ms: Seq<ChatMessageV>) -> Seq<(Seq<char>, ChatMessageV)>
    decreases ms.len(),
{
    if ms.len() == 0 {
        blobs
    } else {
        let b = interned(blobs, ms.drop_last());
        let h = message_fingerprint(ms.last());
        if blob_of(b, h) is Some {
            b
        } else {
            b.push((h, ms.last()))
        }
    }
}

/// The first of the messages with content hash `h`.
pub open spec fn first_with_hash(ms: Seq<ChatMessageV>, h: Seq<char>) -> Option<ChatMessageV>
    decreases ms.len(),
{
    if ms.len() == 0 {
        None
    } else {
        match first_with_hash(ms.drop_last(), h) {
            Some(m) => Some(m),
            None => if message_fingerprint(ms.last()) == h { Some(ms.last()) } else { None },
        }
    }
}

/// After interning, a hash finds what was stored under it before, else the
/// first interned message with that hash.
pub proof fn lemma_interned_lookup(blobs: Seq<(Seq<char>, ChatMessageV)>, ms: Seq<ChatMessageV>, h: Seq<char>)
    ensures
        blob_of(interned(blobs, ms), h) == match blob_of(blobs, h) {
            Some(b) => Some(b),
            None => match first_with_hash(ms, h) {
                Some(m) => Some((h, m)),
                None => None,
            },
        },
    decreases ms.len(),
{
    if ms.len() > 0 {
        lemma_interned_lookup(blobs, ms.drop_last(), h);
        let b = interned(blobs, ms.drop_last());
        let hl = message_fingerprint(ms.last());
        if blob_of(b, hl) is None {
            lemma_last_with_push(b, |x: (Seq<char>, ChatMessageV)| blob_hash(x), (hl, ms.last()), h);
            if hl == h {
                lemma_interned_lookup(blobs, ms.drop_last(), h);
            }
        }
    }
}

/// Whether some stored response refers to hash `h`.
pub open spec fn referenced(rs: Seq<ResponseRecordV>, h: Seq<char>) -> bool {
    exists|i: int, j: int| 0 <= i < rs.len() && 0 <= j < rs[i].refs.len() && #[trigger] rs[i].refs[j] == h
}

impl MemoryStore {
    /// An empty store whose responses live `ttl_seconds` and whose debug
    /// artifacts live `debug_artifact_ttl_seconds`.
    pub fn new(ttl_seconds: u64, debug_artifact_ttl_seconds: u64) -> (s: Self)
        ensures
            s@ == (StoreV {
                responses: Seq::empty(),
                blobs: Seq::empty(),
                debug: Seq::empty(),
                reasoning: Seq::empty(),
                ttl: ttl_seconds,
                debug_ttl: debug_artifact_ttl_seconds,
            }),
            s@.wf(),
    {
        let s = MemoryStore {
            responses: Vec::new(),
            blobs: Vec::new(),
            debug_artifacts: Vec::new(),
            reasoning: Vec::new(),
            ttl_seconds,
            debug_ttl_seconds: debug_artifact_ttl_seconds,
        };
        assert(s@.responses =~= Seq::<ResponseRecordV>::empty());
        assert(s@.blobs =~= Seq::<(Seq<char>, ChatMessageV)>::empty());
        assert(s@.debug =~= Seq::<(DebugArtifactV, i64)>::empty());
        assert(s@.reasoning =~= Seq::<ReasoningV>::empty());
        s
    }

    /// The number of stored responses.
    pub fn len(&self) -> (r: usize)
        ensures
            r == self@.responses.len(),
    {
        self.responses.len()
    }

    fn response_index(&self, id: &str) -> (r: Option<usize>)
        ensures
            match r {
                Some(i) => i < self@.responses.len() && self@.response(id@) == Some(self@.responses[i as int]),
                None => self@.response(id@) is None,
            },
    {
        let ghost rs = self@.responses;
        let mut i: usize = self.responses.len();
        assert(rs.take(i as int) =~= rs);
        while i > 0
            invariant
                rs == self@.responses,
                i <= rs.len(),
                last_with(rs, |r: ResponseRecordV| response_id(r), id@) == last_with(rs.take(i as int), |r: ResponseRecordV| response_id(r), id@),
            decreases i,
        {
            let j = i - 1;
            assert(rs.take(i as int).drop_last() =~= rs.take(j as int));
            assert(rs[j as int] == self.responses@[j as int]@);
            if str_eq(self.responses[j].id.as_str(), id) {
                return Some(j);
            }
            i = j;
        }
        None
    }

    fn blob_index(&self, h: &str) -> (r: Option<usize>)
        ensures
            match r {
                Some(i) => i < self@.blobs.len() && blob_of(self@.blobs, h@) == Some(self@.blobs[i as int]),
                None => blob_of(self@.blobs, h@) is None,
            },
    {
        let ghost bs = self@.blobs;
        let mut i: usize = self.blobs.len();
        assert(bs.take(i as int) =~= bs);
        while i > 0
            invariant
                bs == self@.blobs,
                i <= bs.len(),
                blob_of(bs, h@) == blob_of(bs.take(i as int), h@),
            decreases i,
        {
            let j = i - 1;
            assert(bs.take(i as int).drop_last() =~= bs.take(j as int));
            assert(bs[j as int] == self.blobs@[j as int]@);
            if str_eq(self.blobs[j].hash.as_str(), h) {
                return Some(j);
            }
            i = j;
        }
        None
    }

    /// The JSON of a stored response.
    pub fn get_response_json(&self, id: &str) -> (r: Option<JsonValue>)
        ensures
            match r {
                Some(v) => self@.json_of(id@) == Some(v@),
                None => self@.json_of(id@) is None,
            },
    {
        match self.response_index(id) {
            Some(i) => Some(self.responses[i].response_json.deep_clone()),
            None => None,
        }
    }

    /// The canonical messages of a stored response, in order.
    pub fn get_canonical_messages(&self, id: &str) -> (r: Option<Vec<ChatMessage>>)
        requires
            self@.wf(),
        ensures
            match r {
                Some(ms) => self@.messages_of(id@) == Some(messages_view(ms@)),
                None => self@.messages_of(id@) is None && self@.response(id@) is None,
            },
    {
        let i = match self.response_index(id) {
            Some(i) => i,
            None => {
                return None;
            }
        };
        let refs = &self.responses[i].refs;
        let ghost rv = self@.responses[i as int].refs;
        assert(rv == strs(refs@));
        let mut out: Vec<ChatMessage> = Vec::new();
        let mut k: usize = 0;
        assert(rv.take(0) =~= Seq::<Seq<char>>::empty());
        assert(messages_view(out@) =~= Seq::<ChatMessageV>::empty());
        while k < refs.len()
            invariant
                self@.wf(),
                i < self@.responses.len(),
                rv == self@.responses[i as int].refs,
                rv == strs(refs@),
                k <= refs@.len(),
                resolved(self@.blobs, rv.take(k as int)) == Some(messages_view(out@)),
            decreases refs@.len() - k,
        {
            assert(rv.take(k + 1).drop_last() =~= rv.take(k as int));
            assert(rv.take(k + 1).last() == rv[k as int]);
            assert(blob_of(self@.blobs, self@.responses[i as int].refs[k as int]) is Some);
            let b = self.blob_index(refs[k].as_str());
            let bi = match b {
                Some(bi) => bi,
                None => {
                    return None;
                }
            };
            let ghost before = messages_view(out@);
            out.push(clone_message(&self.blobs[bi].message));
            assert(messages_view(out@) =~= before.push(self@.blobs[bi as int].1));
            k = k + 1;
        }
        assert(rv.take(refs@.len() as int) =~= rv);
        Some(out)
    }
}

proof fn lemma_filter_step<A>(orig: Seq<A>, j: int, p: spec_fn(A) -> bool)
    requires
        0 <= j < orig.len(),
    ensures
        orig.take(j + 1).filter(p) == if p(orig[j]) { orig.take(j).filter(p).push(orig[j]) } else { orig.take(j).filter(p) },
{
    reveal(Seq::filter);
    assert(orig.take(j + 1).drop_last() =~= orig.take(j));
    assert(orig.take(j + 1).last() == orig[j]);
}

proof fn lemma_in_place_keep<A>(cur: Seq<A>, orig: Seq<A>, i: int, j: int, p: spec_fn(A) -> bool)
    requires
        0 <= i < cur.len(),
        0 <= j < orig.len(),
        cur.take(i) == orig.take(j).filter(p),
        cur.skip(i) == orig.skip(j),
        p(cur[i]),
    ensures
        cur.take(i + 1) == orig.take(j + 1).filter(p),
        cur.skip(i + 1) == orig.skip(j + 1),
{
    assert(cur[i] == cur.skip(i)[0]);
    assert(orig[j] == orig.skip(j)[0]);
    lemma_filter_step(orig, j, p);
    assert(cur.take(i + 1) =~= cur.take(i).push(cur[i]));
    assert(cur.skip(i + 1) =~= cur.skip(i).drop_first());
    assert(orig.skip(j + 1) =~= orig.skip(j).drop_first());
}

proof fn lemma_in_place_drop<A>(cur: Seq<A>, orig: Seq<A>, i: int, j: int, p: spec_fn(A) -> bool)
    requires
        0 <= i < cur.len(),
        0 <= j < orig.len(),
        cur.take(i) == orig.take(j).filter(p),
        cur.skip(i) == orig.skip(j),
        !p(cur[i]),
    ensures
        cur.remove(i).take(i) == orig.take(j + 1).filter(p),
        cur.remove(i).skip(i) == orig.skip(j + 1),
{
    assert(cur[i] == cur.skip(i)[0]);
    assert(orig[j] == orig.skip(j)[0]);
    lemma_filter_step(orig, j, p);
    assert(cur.remove(i).take(i) =~= cur.take(i));
    assert(cur.remove(i).skip(i) =~= cur.skip(i).drop_first());
    assert(orig.skip(j + 1) =~= orig.skip(j).drop_first());
}

impl MemoryStore {
    fn drop_response_records(&mut self, id: &str)
        ensures
            final(self)@ == (StoreV { responses: old(self)@.responses.filter(|r: ResponseRecordV| response_id(r) != id@), ..old(self)@ }),
    {
        let ghost orig = self@.responses;
        let ghost p = |r: ResponseRecordV| response_id(r) != id@;
        let ghost other = self@;
        let mut i: usize = 0;
        let ghost mut j: int = 0;
        assert(orig.take(0).filter(p) =~= Seq::<ResponseRecordV>::empty()) by { reveal(Seq::filter); }
        assert(self@.responses.take(0) =~= Seq::<ResponseRecordV>::empty());
        assert(self@.responses.skip(0) =~= orig.skip(0));
        while i < self.responses.len()
            invariant
                self@ == (StoreV { responses: self@.responses, ..other }),
                orig == other.responses,
                p == (|r: ResponseRecordV| response_id(r) != id@),
                0 <= j <= orig.len(),
                i <= self@.responses.len(),
                self@.responses.len() - i == orig.len() - j,
                self@.responses.take(i as int) == orig.take(j).filter(p),
                self@.responses.skip(i as int) == orig.skip(j),
            decreases self@.responses.len() - i,
        {
            let ghost cur = self@.responses;
            assert(cur[i as int] == self.responses@[i as int]@);
            if str_eq(self.responses[i].id.as_str(), id) {
                proof { lemma_in_place_drop(cur, orig, i as int, j, p); }
                let _ = self.responses.remove(i);
                assert(self@.responses =~= cur.remove(i as int));
            } else {
                proof { lemma_in_place_keep(cur, orig, i as int, j, p); }
                i = i + 1;
            }
            proof { j = j + 1; }
        }
        assert(orig.take(j) =~= orig);
        assert(self@.responses.take(i as int) =~= self@.responses);
    }

    fn drop_expired_responses(&mut self, now: i64)
        ensures
            final(self)@ == (StoreV { responses: old(self)@.responses.filter(|r: ResponseRecordV| r.expires_at > now), ..old(self)@ }),
    {
        let ghost orig = self@.responses;
        let ghost p = |r: ResponseRecordV| r.expires_at > now;
        let ghost other = self@;
        let mut i: usize = 0;
        let ghost mut j: int = 0;
        assert(orig.take(0).filter(p) =~= Seq::<ResponseRecordV>::empty()) by { reveal(Seq::filter); }
        assert(self@.responses.take(0) =~= Seq::<ResponseRecordV>::empty());
        assert(self@.responses.skip(0) =~= orig.skip(0));
        while i < self.responses.len()
            invariant
                self@ == (StoreV { responses: self@.responses, ..other }),
                orig == other.responses,
                p == (|r: ResponseRecordV| r.expires_at > now),
                0 <= j <= orig.len(),
                i <= self@.responses.len(),
                self@.responses.len() - i == orig.len() - j,
                self@.responses.take(i as int) == orig.take(j).filter(p),
                self@.responses.skip(i as int) == orig.skip(j),
            decreases self@.responses.len() - i,
        {
            let ghost cur = self@.responses;
            assert(cur[i as int] == self.responses@[i as int]@);
            if self.responses[i].expires_at <= now {
                proof { lemma_in_place_drop(cur, orig, i as int, j, p); }
                let _ = self.responses.remove(i);
                assert(self@.responses =~= cur.remove(i as int));
            } else {
                proof { lemma_in_place_keep(cur, orig, i as int, j, p); }
                i = i + 1;
            }
            proof { j = j + 1; }
        }
        assert(orig.take(j) =~= orig);
        assert(self@.responses.take(i as int) =~= self@.responses);
    }


    fn drop_debug_of_ids(&mut self, ids: &Vec<String>)
        ensures
            final(self)@ == (StoreV { debug: old(self)@.debug.filter(|d: (DebugArtifactV, i64)| !strs(ids@).contains(debug_id(d))), ..old(self)@ }),
    {
        let ghost orig = self@.debug;
        let ghost p = |d: (DebugArtifactV, i64)| !strs(ids@).contains(debug_id(d));
        let ghost other = self@;
        let mut i: usize = 0;
        let ghost mut j: int = 0;
        assert(orig.take(0).filter(p) =~= Seq::<(DebugArtifactV, i64)>::empty()) by { reveal(Seq::filter); }
        assert(self@.debug.take(0) =~= Seq::<(DebugArtifactV, i64)>::empty());
        assert(self@.debug.skip(0) =~= orig.skip(0));
        while i < self.debug_artifacts.len()
            invariant
                self@ == (StoreV { debug: self@.debug, ..other }),
                orig == other.debug,
                p == (|d: (DebugArtifactV, i64)| !strs(ids@).contains(debug_id(d))),
                0 <= j <= orig.len(),
                i <= self@.debug.len(),
                self@.debug.len() - i == orig.len() - j,
                self@.debug.take(i as int) == orig.take(j).filter(p),
                self@.debug.skip(i as int) == orig.skip(j),
            decreases self@.debug.len() - i,
        {
            let ghost cur = self@.debug;
            assert(cur[i as int] == self.debug_artifacts@[i as int]@);
            if contains_str(ids, self.debug_artifacts[i].artifact.id.as_str()) {
                proof { lemma_in_place_drop(cur, orig, i as int, j, p); }
                let _ = self.debug_artifacts.remove(i);
                assert(self@.debug =~= cur.remove(i as int));
            } else {
                proof { lemma_in_place_keep(cur, orig, i as int, j, p); }
                i = i + 1;
            }
            proof { j = j + 1; }
        }
        assert(orig.take(j) =~= orig);
        assert(self@.debug.take(i as int) =~= self@.debug);
    }


    fn drop_reasoning_of_ids(&mut self, ids: &Vec<String>)
        ensures
            final(self)@ == (StoreV { reasoning: old(self)@.reasoning.filter(|e: ReasoningV| !strs(ids@).contains(e.response_id)), ..old(self)@ }),
    {
        let ghost orig = self@.reasoning;
        let ghost p = |e: ReasoningV| !strs(ids@).contains(e.response_id);
        let ghost other = self@;
        let mut i: usize = 0;
        let ghost mut j: int = 0;
        assert(orig.take(0).filter(p) =~= Seq::<ReasoningV>::empty()) by { reveal(Seq::filter); }
        assert(self@.reasoning.take(0) =~= Seq::<ReasoningV>::empty());
        assert(self@.reasoning.skip(0) =~= orig.skip(0));
        while i < self.reasoning.len()
            invariant
                self@ == (StoreV { reasoning: self@.reasoning, ..other }),
                orig == other.reasoning,
                p == (|e: ReasoningV| !strs(ids@).contains(e.response_id)),
                0 <= j <= orig.len(),
                i <= self@.reasoning.len(),
                self@.reasoning.len() - i == orig.len() - j,
                self@.reasoning.take(i as int) == orig.take(j).filter(p),
                self@.reasoning.skip(i as int) == orig.skip(j),
            decreases self@.reasoning.len() - i,
        {
            let ghost cur = self@.reasoning;
            assert(cur[i as int] == self.reasoning@[i as int]@);
            if contains_str(ids, self.reasoning[i].response_id.as_str()) {
                proof { lemma_in_place_drop(cur, orig, i as int, j, p); }
                let _ = self.reasoning.remove(i);
                assert(self@.reasoning =~= cur.remove(i as int));
            } else {
                proof { lemma_in_place_keep(cur, orig, i as int, j, p); }
                i = i + 1;
            }
            proof { j = j + 1; }
        }
        assert(orig.take(j) =~= orig);
        assert(self@.reasoning.take(i as int) =~= self@.reasoning);
    }


    fn drop_debug_records(&mut self, id: &str)
        ensures
            final(self)@ == (StoreV { debug: old(self)@.debug.filter(|d: (DebugArtifactV, i64)| debug_id(d) != id@), ..old(self)@ }),
    {
        let ghost orig = self@.debug;
        let ghost p = |d: (DebugArtifactV, i64)| debug_id(d) != id@;
        let ghost other = self@;
        let mut i: usize = 0;
        let ghost mut j: int = 0;
        assert(orig.take(0).filter(p) =~= Seq::<(DebugArtifactV, i64)>::empty()) by { reveal(Seq::filter); }
        assert(self@.debug.take(0) =~= Seq::<(DebugArtifactV, i64)>::empty());
        assert(self@.debug.skip(0) =~= orig.skip(0));
        while i < self.debug_artifacts.len()
            invariant
                self@ == (StoreV { debug: self@.debug, ..other }),
                orig == other.debug,
                p == (|d: (DebugArtifactV, i64)| debug_id(d) != id@),
                0 <= j <= orig.len(),
                i <= self@.debug.len(),
                self@.debug.len() - i == orig.len() - j,
                self@.debug.take(i as int) == orig.take(j).filter(p),
                self@.debug.skip(i as int) == orig.skip(j),
            decreases self@.debug.len() - i,
        {
            let ghost cur = self@.debug;
            assert(cur[i as int] == self.debug_artifacts@[i as int]@);
            if str_eq(self.debug_artifacts[i].artifact.id.as_str(), id) {
                proof { lemma_in_place_drop(cur, orig, i as int, j, p); }
                let _ = self.debug_artifacts.remove(i);
                assert(self@.debug =~= cur.remove(i as int));
            } else {
                proof { lemma_in_place_keep(cur, orig, i as int, j, p); }
                i = i + 1;
            }
            proof { j = j + 1; }
        }
        assert(orig.take(j) =~= orig);
        assert(self@.debug.take(i as int) =~= self@.debug);
    }

    fn drop_reasoning_of_response(&mut self, id: &str)
        ensures
            final(self)@ == (StoreV { reasoning: old(self)@.reasoning.filter(|e: ReasoningV| e.response_id != id@), ..old(self)@ }),
    {
        let ghost orig = self@.reasoning;
        let ghost p = |e: ReasoningV| e.response_id != id@;
        let ghost other = self@;
        let mut i: usize = 0;
        let ghost mut j: int = 0;
        assert(orig.take(0).filter(p) =~= Seq::<ReasoningV>::empty()) by { reveal(Seq::filter); }
        assert(self@.reasoning.take(0) =~= Seq::<ReasoningV>::empty());
        assert(self@.reasoning.skip(0) =~= orig.skip(0));
        while i < self.reasoning.len()
            invariant
                self@ == (StoreV { reasoning: self@.reasoning, ..other }),
                orig == other.reasoning,
                p == (|e: ReasoningV| e.response_id != id@),
                0 <= j <= orig.len(),
                i <= self@.reasoning.len(),
                self@.reasoning.len() - i == orig.len() - j,
                self@.reasoning.take(i as int) == orig.take(j).filter(p),
                self@.reasoning.skip(i as int) == orig.skip(j),
            decreases self@.reasoning.len() - i,
        {
            let ghost cur = self@.reasoning;
            assert(cur[i as int] == self.reasoning@[i as int]@);
            if str_eq(self.reasoning[i].response_id.as_str(), id) {
                proof { lemma_in_place_drop(cur, orig, i as int, j, p); }
                let _ = self.reasoning.remove(i);
                assert(self@.reasoning =~= cur.remove(i as int));
            } else {
                proof { lemma_in_place_keep(cur, orig, i as int, j, p); }
                i = i + 1;
            }
            proof { j = j + 1; }
        }
        assert(orig.take(j) =~= orig);
        assert(self@.reasoning.take(i as int) =~= self@.reasoning);
    }

    fn drop_reasoning_key(&mut self, conversation_id: &str, call_id: &str)
        ensures
            final(self)@ == (StoreV { reasoning: old(self)@.reasoning.filter(|e: ReasoningV| reasoning_key(e) != (conversation_id@, call_id@)), ..old(self)@ }),
    {
        let ghost orig = self@.reasoning;
        let ghost p = |e: ReasoningV| reasoning_key(e) != (conversation_id@, call_id@);
        let ghost other = self@;
        let mut i: usize = 0;
        let ghost mut j: int = 0;
        assert(orig.take(0).filter(p) =~= Seq::<ReasoningV>::empty()) by { reveal(Seq::filter); }
        assert(self@.reasoning.take(0) =~= Seq::<ReasoningV>::empty());
        assert(self@.reasoning.skip(0) =~= orig.skip(0));
        while i < self.reasoning.len()
            invariant
                self@ == (StoreV { reasoning: self@.reasoning, ..other }),
                orig == other.reasoning,
                p == (|e: ReasoningV| reasoning_key(e) != (conversation_id@, call_id@)),
                0 <= j <= orig.len(),
                i <= self@.reasoning.len(),
                self@.reasoning.len() - i == orig.len() - j,
                self@.reasoning.take(i as int) == orig.take(j).filter(p),
                self@.reasoning.skip(i as int) == orig.skip(j),
            decreases self@.reasoning.len() - i,
        {
            let ghost cur = self@.reasoning;
            assert(cur[i as int] == self.reasoning@[i as int]@);
            if str_eq(self.reasoning[i].conversation_id.as_str(), conversation_id) && str_eq(self.reasoning[i].call_id.as_str(), call_id) {
                proof { lemma_in_place_drop(cur, orig, i as int, j, p); }
                let _ = self.reasoning.remove(i);
                assert(self@.reasoning =~= cur.remove(i as int));
            } else {
                proof { lemma_in_place_keep(cur, orig, i as int, j, p); }
                i = i + 1;
            }
            proof { j = j + 1; }
        }
        assert(orig.take(j) =~= orig);
        assert(self@.reasoning.take(i as int) =~= self@.reasoning);
    }

    fn drop_expired_debug(&mut self, now: i64)
        ensures
            final(self)@ == (StoreV { debug: old(self)@.debug.filter(|d: (DebugArtifactV, i64)| d.1 > now), ..old(self)@ }),
    {
        let ghost orig = self@.debug;
        let ghost p = |d: (DebugArtifactV, i64)| d.1 > now;
        let ghost other = self@;
        let mut i: usize = 0;
        let ghost mut j: int = 0;
        assert(orig.take(0).filter(p) =~= Seq::<(DebugArtifactV, i64)>::empty()) by { reveal(Seq::filter); }
        assert(self@.debug.take(0) =~= Seq::<(DebugArtifactV, i64)>::empty());
        assert(self@.debug.skip(0) =~= orig.skip(0));
        while i < self.debug_artifacts.len()
            invariant
                self@ == (StoreV { debug: self@.debug, ..other }),
                orig == other.debug,
                p == (|d: (DebugArtifactV, i64)| d.1 > now),
                0 <= j <= orig.len(),
                i <= self@.debug.len(),
                self@.debug.len() - i == orig.len() - j,
                self@.debug.take(i as int) == orig.take(j).filter(p),
                self@.debug.skip(i as int) == orig.skip(j),
            decreases self@.debug.len() - i,
        {
            let ghost cur = self@.debug;
            assert(cur[i as int] == self.debug_artifacts@[i as int]@);
            if self.debug_artifacts[i].expires_at <= now {
                proof { lemma_in_place_drop(cur, orig, i as int, j, p); }
                let _ = self.debug_artifacts.remove(i);
                assert(self@.debug =~= cur.remove(i as int));
            } else {
                proof { lemma_in_place_keep(cur, orig, i as int, j, p); }
                i = i + 1;
            }
            proof { j = j + 1; }
        }
        assert(orig.take(j) =~= orig);
        assert(self@.debug.take(i as int) =~= self@.debug);
    }

    fn drop_unreferenced_blobs(&mut self)
        ensures
            final(self)@ == (StoreV { blobs: old(self)@.blobs.filter(|b: (Seq<char>, ChatMessageV)| referenced(old(self)@.responses, b.0)), ..old(self)@ }),
    {
        let ghost orig = self@.blobs;
        let ghost p = |b: (Seq<char>, ChatMessageV)| referenced(old(self)@.responses, b.0);
        let ghost other = self@;
        let mut i: usize = 0;
        let ghost mut j: int = 0;
        assert(orig.take(0).filter(p) =~= Seq::<(Seq<char>, ChatMessageV)>::empty()) by { reveal(Seq::filter); }
        assert(self@.blobs.take(0) =~= Seq::<(Seq<char>, ChatMessageV)>::empty());
        assert(self@.blobs.skip(0) =~= orig.skip(0));
        while i < self.blobs.len()
            invariant
                self@ == (StoreV { blobs: self@.blobs, ..other }),
                orig == other.blobs,
                p == (|b: (Seq<char>, ChatMessageV)| referenced(other.responses, b.0)),
                other == old(self)@,
                0 <= j <= orig.len(),
                i <= self@.blobs.len(),
                self@.blobs.len() - i == orig.len() - j,
                self@.blobs.take(i as int) == orig.take(j).filter(p),
                self@.blobs.skip(i as int) == orig.skip(j),
            decreases self@.blobs.len() - i,
        {
            let ghost cur = self@.blobs;
            assert(cur[i as int] == self.blobs@[i as int]@);
            if !self.is_referenced(self.blobs[i].hash.as_str()) {
                proof { lemma_in_place_drop(cur, orig, i as int, j, p); }
                let _ = self.blobs.remove(i);
                assert(self@.blobs =~= cur.remove(i as int));
            } else {
                proof { lemma_in_place_keep(cur, orig, i as int, j, p); }
                i = i + 1;
            }
            proof { j = j + 1; }
        }
        assert(orig.take(j) =~= orig);
        assert(self@.blobs.take(i as int) =~= self@.blobs);
    }
}

impl MemoryStore {
    fn is_referenced(&self, h: &str) -> (r: bool)
        ensures
            r == referenced(self@.responses, h@),
    {
        let ghost rs = self@.responses;
        let mut i: usize = 0;
        while i < self.responses.len()
            invariant
                rs == self@.responses,
                i <= rs.len(),
                forall|a: int, b: int| 0 <= a < i && 0 <= b < rs[a].refs.len() ==> #[trigger] rs[a].refs[b] != h@,
            decreases rs.len() - i,
        {
            let refs = &self.responses[i].refs;
            assert(rs[i as int].refs == strs(refs@));
            let mut k: usize = 0;
            while k < refs.len()
                invariant
                    rs == self@.responses,
                    i < rs.len(),
                    rs[i as int].refs == strs(refs@),
                    k <= refs@.len(),
                    forall|b: int| 0 <= b < k ==> #[trigger] rs[i as int].refs[b] != h@,
                decreases refs@.len() - k,
            {
                if str_eq(refs[k].as_str(), h) {
                    assert(rs[i as int].refs[k as int] == h@);
                    return true;
                }
                k = k + 1;
            }
            i = i + 1;
        }
        false
    }
}

// ---------------------------------------------------------------------------
// Reasoning recorded in a conversation.

/// Whether a message carries reasoning for its tool calls.
pub open spec fn carries_reasoning(m: ChatMessageV) -> bool {
    m matches ChatMessageV::Assistant { reasoning_content: Some(rc), tool_calls: Some(_), .. } && rc.len() > 0
}

/// Whether a message makes the tool call `call_id`.
pub open spec fn calls(m: ChatMessageV, call_id: Seq<char>) -> bool {
    match m {
        ChatMessageV::Assistant { tool_calls: Some(tcs), .. } => exists|k: int| 0 <= k < tcs.len() && (#[trigger] tcs[k]).id == call_id,
        _ => false,
    }
}

/// The reasoning recorded for a tool call by a conversation: that of the last
/// message carrying reasoning that makes the call.
pub open spec fn recorded_reasoning(ms: Seq<ChatMessageV>, call_id: Seq<char>) -> Option<Seq<char>>
    decreases ms.len(),
{
    if ms.len() == 0 {
        None
    } else if carries_reasoning(ms.last()) && calls(ms.last(), call_id) {
        ms.last()->Assistant_reasoning_content
    } else {
        recorded_reasoning(ms.drop_last(), call_id)
    }
}

pub open spec fn pair_views(v: Seq<(String, String)>) -> Seq<(Seq<char>, Seq<char>)> {
    Seq::new(v.len(), |i: int| (v[i].0@, v[i].1@))
}

pub open spec fn pair_key(p: (Seq<char>, Seq<char>)) -> Seq<char> {
    p.0
}

/// The last pair for a key.
pub open spec fn pair_of(pairs: Seq<(Seq<char>, Seq<char>)>, key: Seq<char>) -> Option<(Seq<char>, Seq<char>)> {
    last_with(pairs, |q: (Seq<char>, Seq<char>)| pair_key(q), key)
}

/// The reasoning of each tool call in the messages, as (call id, reasoning)
/// pairs in which the last pair for a call counts.
pub fn reasoning_map_from_messages(messages: &Vec<ChatMessage>) -> (r: Vec<(String, String)>)
    ensures
        forall|call_id: Seq<char>| #[trigger] pair_of(pair_views(r@), call_id) == match recorded_reasoning(messages_view(messages@), call_id) {
            Some(rc) => Some((call_id, rc)),
            None => None,
        },
{
    let ghost mv = messages_view(messages@);
    let mut pairs: Vec<(String, String)> = Vec::new();
    let mut i: usize = 0;
    while i < messages.len()
        invariant
            mv == messages_view(messages@),
            i <= messages@.len(),
            forall|call_id: Seq<char>| #[trigger] pair_of(pair_views(pairs@), call_id) == match recorded_reasoning(mv.take(i as int), call_id) {
                Some(rc) => Some((call_id, rc)),
                None => None,
            },
        decreases messages@.len() - i,
    {
        assert(mv.take(i + 1).drop_last() =~= mv.take(i as int));
        assert(mv.take(i + 1).last() == messages@[i as int]@);
        if let ChatMessage::Assistant { reasoning_content: Some(rc), tool_calls: Some(tcs), .. } = &messages[i] {
            if !rc.as_str().is_empty() {
                let ghost before = pair_views(pairs@);
                let ghost tv = crate::chat::tool_calls_view(tcs@);
                let mut k: usize = 0;
                while k < tcs.len()
                    invariant
                        k <= tcs@.len(),
                        tv == crate::chat::tool_calls_view(tcs@),
                        forall|call_id: Seq<char>| #[trigger] pair_of(pair_views(pairs@), call_id) == if exists|x: int| 0 <= x < k && (#[trigger] tv[x]).id == call_id {
                            Some((call_id, rc@))
                        } else {
                            pair_of(before, call_id)
                        },
                    decreases tcs@.len() - k,
                {
                    let ghost pv = pair_views(pairs@);
                    pairs.push((tcs[k].id.clone(), rc.clone()));
                    assert(pair_views(pairs@) =~= pv.push((tv[k as int].id, rc@)));
                    assert forall|call_id: Seq<char>| #[trigger] pair_of(pair_views(pairs@), call_id) == if exists|x: int| 0 <= x < k + 1 && (#[trigger] tv[x]).id == call_id {
                        Some((call_id, rc@))
                    } else {
                        pair_of(before, call_id)
                    } by {
                        lemma_last_with_push(pv, |q: (Seq<char>, Seq<char>)| pair_key(q), (tv[k as int].id, rc@), call_id);
                        assert(pair_of(pv, call_id) == pair_of(pv, call_id));
                        if tv[k as int].id == call_id {
                            assert(0 <= k < k + 1 && tv[k as int].id == call_id);
                        } else {
                            if exists|x: int| 0 <= x < k + 1 && (#[trigger] tv[x]).id == call_id {
                                let x = choose|x: int| 0 <= x < k + 1 && (#[trigger] tv[x]).id == call_id;
                                assert(x < k);
                            }
                        }
                    }
                    k = k + 1;
                }
                assert forall|call_id: Seq<char>| #[trigger] pair_of(pair_views(pairs@), call_id) == match recorded_reasoning(mv.take(i + 1), call_id) {
                    Some(rc) => Some((call_id, rc)),
                    None => None,
                } by {
                    let m = mv.take(i + 1).last();
                    assert(carries_reasoning(m));
                    if exists|x: int| 0 <= x < tcs@.len() && (#[trigger] tv[x]).id == call_id {
                        let x = choose|x: int| 0 <= x < tcs@.len() && (#[trigger] tv[x]).id == call_id;
                        assert(m->Assistant_tool_calls->0[x].id == call_id);
                        assert(calls(m, call_id));
                    } else {
                        if calls(m, call_id) {
                            let x = choose|x: int| 0 <= x < m->Assistant_tool_calls->0.len() && (#[trigger] m->Assistant_tool_calls->0[x]).id == call_id;
                            assert(tv[x].id == call_id);
                        }
                    }
                }
            }
        }
        i = i + 1;
    }
    assert(mv.take(messages@.len() as int) =~= mv);
    pairs
}

/// Lists of hashes resolve the same wherever each hash finds the same blob.
proof fn lemma_resolved_same(b1: Seq<(Seq<char>, ChatMessageV)>, b2: Seq<(Seq<char>, ChatMessageV)>, refs: Seq<Seq<char>>)
    requires
        forall|j: int| 0 <= j < refs.len() ==> blob_of(b1, #[trigger] refs[j]) == blob_of(b2, refs[j]),
    ensures
        resolved(b1, refs) == resolved(b2, refs),
    decreases refs.len(),
{
    if refs.len() > 0 {
        let d = refs.drop_last();
        assert forall|j: int| 0 <= j < d.len() implies blob_of(b1, #[trigger] d[j]) == blob_of(b2, d[j]) by {
            assert(d[j] == refs[j]);
        }
        lemma_resolved_same(b1, b2, d);
        assert(refs.last() == refs[refs.len() - 1]);
    }
}

/// A list of hashes whose blobs are all stored resolves.
proof fn lemma_resolved_some(b: Seq<(Seq<char>, ChatMessageV)>, refs: Seq<Seq<char>>)
    requires
        forall|j: int| 0 <= j < refs.len() ==> (#[trigger] blob_of(b, refs[j])) is Some,
    ensures
        resolved(b, refs) matches Some(ms) && ms.len() == refs.len()
            && forall|j: int| 0 <= j < refs.len() ==> blob_of(b, refs[j]) == Some((refs[j], #[trigger] ms[j])),
    decreases refs.len(),
{
    if refs.len() > 0 {
        let d = refs.drop_last();
        assert forall|j: int| 0 <= j < d.len() implies (#[trigger] blob_of(b, d[j])) is Some by {
            assert(d[j] == refs[j]);
            assert(blob_of(b, refs[j]) is Some);
        }
        lemma_resolved_some(b, d);
        let last = refs[refs.len() - 1];
        assert(blob_of(b, last) is Some);
        let bl = blob_of(b, last)->0;
        lemma_last_with_none(b, |x: (Seq<char>, ChatMessageV)| blob_hash(x), last);
        let ms = resolved(b, d)->0;
        assert forall|j: int| 0 <= j < refs.len() implies blob_of(b, refs[j]) == Some((refs[j], #[trigger] ms.push(bl.1)[j])) by {
            if j < d.len() {
                assert(d[j] == refs[j]);
                assert(ms.push(bl.1)[j] == ms[j]);
                lemma_last_with_none(b, |x: (Seq<char>, ChatMessageV)| blob_hash(x), refs[j]);
            } else {
                lemma_last_with_none(b, |x: (Seq<char>, ChatMessageV)| blob_hash(x), refs[j]);
            }
        }
    }
}

impl MemoryStore {
    fn remove_reasoning_key(&mut self, conversation_id: &str, call_id: &str)
        requires
            keys_unique(old(self)@.reasoning, |e: ReasoningV| reasoning_key(e)),
        ensures
            final(self)@ == (StoreV { reasoning: final(self)@.reasoning, ..old(self)@ }),
            keys_unique(final(self)@.reasoning, |e: ReasoningV| reasoning_key(e)),
            forall|x: int| 0 <= x < final(self)@.reasoning.len() ==> reasoning_key(#[trigger] final(self)@.reasoning[x]) != (conversation_id@, call_id@),
            forall|c: Seq<char>, k: Seq<char>| #[trigger] final(self)@.reasoning_of(c, k) == if (c, k) == (conversation_id@, call_id@) {
                None
            } else {
                old(self)@.reasoning_of(c, k)
            },
    {
        let ghost key = (conversation_id@, call_id@);
        let ghost before = self@.reasoning;
        self.drop_reasoning_key(conversation_id, call_id);
        proof {
            let p = |e: ReasoningV| reasoning_key(e) != key;
            assert(self@.reasoning == before.filter(p));
            lemma_keys_unique_filter(before, |e: ReasoningV| reasoning_key(e), p);
            assert forall|x: int| 0 <= x < self@.reasoning.len() implies reasoning_key(#[trigger] self@.reasoning[x]) != key by {
                before.lemma_filter_pred(p, x);
            }
            assert forall|c: Seq<char>, k: Seq<char>| #[trigger] self@.reasoning_of(c, k) == if (c, k) == key { None } else { old(self)@.reasoning_of(c, k) } by {
                lemma_last_with_keep_keys(before, |e: ReasoningV| reasoning_key(e), p, |kk: (Seq<char>, Seq<char>)| kk != key, (c, k));
            }
        }
    }
}

impl MemoryStore {
    fn intern_messages(&mut self, messages: &Vec<ChatMessage>) -> (refs: Vec<String>)
        ensures
            final(self)@ == (StoreV { blobs: interned(old(self)@.blobs, messages_view(messages@)), ..old(self)@ }),
            strs(refs@) == fingerprints(messages_view(messages@)),
    {
        let ghost mv = messages_view(messages@);
        let ghost other = self@;
        let mut refs: Vec<String> = Vec::new();
        let mut i: usize = 0;
        assert(mv.take(0) =~= Seq::<ChatMessageV>::empty());
        assert(strs(refs@) =~= fingerprints(mv).take(0));
        while i < messages.len()
            invariant
                mv == messages_view(messages@),
                other == old(self)@,
                i <= messages@.len(),
                self@ == (StoreV { blobs: interned(other.blobs, mv.take(i as int)), ..other }),
                strs(refs@) == fingerprints(mv).take(i as int),
            decreases messages@.len() - i,
        {
            assert(mv.take(i + 1).drop_last() =~= mv.take(i as int));
            assert(mv.take(i + 1).last() == messages@[i as int]@);
            let (hash, _json) = message_hash(&messages[i]);
            let ghost before = self@.blobs;
            if self.blob_index(hash.as_str()).is_none() {
                self.blobs.push(MessageBlob { hash: hash.clone(), message: clone_message(&messages[i]) });
                assert(self@.blobs =~= before.push((hash@, messages@[i as int]@)));
            }
            let ghost rb = strs(refs@);
            refs.push(hash);
            assert(strs(refs@) =~= rb.push(message_fingerprint(mv[i as int])));
            assert(fingerprints(mv).take(i + 1) =~= fingerprints(mv).take(i as int).push(message_fingerprint(mv[i as int])));
            i = i + 1;
        }
        assert(mv.take(messages@.len() as int) =~= mv);
        assert(fingerprints(mv).take(messages@.len() as int) =~= fingerprints(mv));
        refs
    }

    fn record_reasoning(&mut self, conversation_id: &String, response_id: &String, pairs: &Vec<(String, String)>)
        requires
            keys_unique(old(self)@.reasoning, |e: ReasoningV| reasoning_key(e)),
        ensures
            final(self)@ == (StoreV { reasoning: final(self)@.reasoning, ..old(self)@ }),
            keys_unique(final(self)@.reasoning, |e: ReasoningV| reasoning_key(e)),
            forall|c: Seq<char>, k: Seq<char>| #[trigger] final(self)@.reasoning_of(c, k) == if c == conversation_id@ && pair_of(pair_views(pairs@), k) is Some {
                Some(ReasoningV { conversation_id: c, call_id: k, response_id: response_id@, reasoning: (pair_of(pair_views(pairs@), k)->0).1 })
            } else {
                old(self)@.reasoning_of(c, k)
            },
    {
        let ghost pv = pair_views(pairs@);
        let ghost other = self@;
        let mut i: usize = 0;
        assert(pv.take(0) =~= Seq::<(Seq<char>, Seq<char>)>::empty());
        while i < pairs.len()
            invariant
                pv == pair_views(pairs@),
                other == old(self)@,
                i <= pairs@.len(),
                self@ == (StoreV { reasoning: self@.reasoning, ..other }),
                keys_unique(self@.reasoning, |e: ReasoningV| reasoning_key(e)),
                forall|c: Seq<char>, k: Seq<char>| #[trigger] self@.reasoning_of(c, k) == if c == conversation_id@ && pair_of(pv.take(i as int), k) is Some {
                    Some(ReasoningV { conversation_id: c, call_id: k, response_id: response_id@, reasoning: (pair_of(pv.take(i as int), k)->0).1 })
                } else {
                    other.reasoning_of(c, k)
                },
            decreases pairs@.len() - i,
        {
            let ghost before = self@;
            let ghost key = (conversation_id@, pairs@[i as int].0@);
            self.remove_reasoning_key(conversation_id.as_str(), pairs[i].0.as_str());
            let ghost mid_state = self@;
            let ghost mid = self@.reasoning;
            let entry = ReasoningEntry {
                conversation_id: conversation_id.clone(),
                call_id: pairs[i].0.clone(),
                response_id: response_id.clone(),
                reasoning: pairs[i].1.clone(),
            };
            let ghost ev = entry@;
            self.reasoning.push(entry);
            assert(self@.reasoning =~= mid.push(ev));
            assert(pv.take(i + 1) =~= pv.take(i as int).push(pv[i as int]));
            proof {
                let nr = self@.reasoning;
                assert forall|a: int, b: int| 0 <= a < nr.len() && 0 <= b < nr.len() && reasoning_key(#[trigger] nr[a]) == reasoning_key(#[trigger] nr[b]) implies a == b by {
                    if a < mid.len() && b < mid.len() {
                        assert(nr[a] == mid[a] && nr[b] == mid[b]);
                    } else if a < mid.len() {
                        assert(nr[a] == mid[a]);
                    } else if b < mid.len() {
                        assert(nr[b] == mid[b]);
                    }
                }
                assert forall|c: Seq<char>, k: Seq<char>| #[trigger] self@.reasoning_of(c, k) == if c == conversation_id@ && pair_of(pv.take(i + 1), k) is Some {
                    Some(ReasoningV { conversation_id: c, call_id: k, response_id: response_id@, reasoning: (pair_of(pv.take(i + 1), k)->0).1 })
                } else {
                    other.reasoning_of(c, k)
                } by {
                    lemma_last_with_push(mid, |e: ReasoningV| reasoning_key(e), ev, (c, k));
                    lemma_last_with_push(pv.take(i as int), |q: (Seq<char>, Seq<char>)| pair_key(q), pv[i as int], k);
                    assert(before.reasoning_of(c, k) == before.reasoning_of(c, k));
                    assert(mid_state.reasoning_of(c, k) == if (c, k) == key { None } else { before.reasoning_of(c, k) });
                    assert(ev == ReasoningV { conversation_id: conversation_id@, call_id: pv[i as int].0, response_id: response_id@, reasoning: pv[i as int].1 });
                }
            }
            i = i + 1;
        }
        assert(pv.take(pairs@.len() as int) =~= pv);
    }
}

proof fn lemma_first_with_hash_some(ms: Seq<ChatMessageV>, j: int)
    requires
        0 <= j < ms.len(),
    ensures
        first_with_hash(ms, message_fingerprint(ms[j])) is Some,
    decreases ms.len(),
{
    if j < ms.len() - 1 {
        lemma_first_with_hash_some(ms.drop_last(), j);
        assert(ms.drop_last()[j] == ms[j]);
    }
}

/// The conversation a response is filed under.
pub open spec fn conversation_of(conversation_id: Option<Seq<char>>) -> Seq<char> {
    match conversation_id {
        Some(c) => c,
        None => "default"@,
    }
}

/// The reasoning of a conversation's tool calls after the reasoning of
/// response `id` was dropped.
pub open spec fn reasoning_without(e: Option<ReasoningV>, id: Seq<char>) -> Option<ReasoningV> {
    match e {
        Some(x) => if x.response_id == id { None } else { Some(x) },
        None => None,
    }
}

/// Every blob a response of `rs` refers to is found in `b`.
pub open spec fn refs_stored(rs: Seq<ResponseRecordV>, b: Seq<(Seq<char>, ChatMessageV)>) -> bool {
    forall|i: int, j: int| 0 <= i < rs.len() && 0 <= j < rs[i].refs.len() ==> (#[trigger] blob_of(b, rs[i].refs[j])) is Some
}

impl MemoryStore {
    /// Stores a response with its canonical conversation, replacing any earlier
    /// response with that id. Messages already stored under the same content
    /// hash are shared; the reasoning its assistant turns carry for their tool
    /// calls is recorded under the response's conversation, replacing what the
    /// response recorded before.
    #[verifier::rlimit(50)]
    pub fn put_response_state(&mut self, state: ResponseState)
        requires
            old(self)@.wf(),
            i64::MIN <= state.created_at + (old(self)@.ttl as i64) <= i64::MAX,
        ensures
            final(self)@.wf(),
            final(self)@.ttl == old(self)@.ttl,
            final(self)@.debug_ttl == old(self)@.debug_ttl,
            final(self)@.debug == old(self)@.debug,
            final(self)@.response(state.id@) == Some(ResponseRecordV {
                id: state.id@,
                response_json: state.response_json@,
                expires_at: (state.created_at + (old(self)@.ttl as i64)) as i64,
                refs: fingerprints(messages_view(state.canonical_messages@)),
            }),
            final(self)@.messages_of(state.id@) == resolved(
                interned(old(self)@.blobs, messages_view(state.canonical_messages@)),
                fingerprints(messages_view(state.canonical_messages@)),
            ),
            forall|k: Seq<char>| k != state.id@ ==> #[trigger] final(self)@.response(k) == old(self)@.response(k),
            forall|k: Seq<char>| k != state.id@ ==> #[trigger] final(self)@.messages_of(k) == old(self)@.messages_of(k),
            forall|c: Seq<char>, k: Seq<char>| #[trigger] final(self)@.reasoning_of(c, k) ==
                if c == conversation_of(ostr(state.conversation_id)) && recorded_reasoning(messages_view(state.canonical_messages@), k) is Some {
                    Some(ReasoningV {
                        conversation_id: c,
                        call_id: k,
                        response_id: state.id@,
                        reasoning: recorded_reasoning(messages_view(state.canonical_messages@), k)->0,
                    })
                } else {
                    reasoning_without(old(self)@.reasoning_of(c, k), state.id@)
                },
    {
        let ghost s0 = self@;
        let ghost mv = messages_view(state.canonical_messages@);
        let ghost fps = fingerprints(mv);
        let conv = match &state.conversation_id {
            Some(c) => default_conversation_id(Some(c.as_str())),
            None => default_conversation_id(None),
        };
        let refs = self.intern_messages(&state.canonical_messages);
        let ghost blobs1 = self@.blobs;
        let pairs = reasoning_map_from_messages(&state.canonical_messages);
        self.drop_response_records(state.id.as_str());
        let ghost responses2 = self@.responses;
        let expires_at = state.created_at + self.ttl_seconds as i64;
        let record = ResponseRecord { id: state.id.clone(), response_json: state.response_json, expires_at, refs };
        let ghost rec = record@;
        self.responses.push(record);
        assert(self@.responses =~= responses2.push(rec));
        let ghost responses3 = self@.responses;
        self.drop_reasoning_of_response(state.id.as_str());
        let ghost s4 = self@;
        proof {
            lemma_keys_unique_filter(s0.reasoning, |e: ReasoningV| reasoning_key(e), |e: ReasoningV| e.response_id != state.id@);
        }
        self.record_reasoning(&conv, &state.id, &pairs);
        let ghost s5 = self@;
        self.drop_unreferenced_blobs();
        proof {
            let id = state.id@;
            let rkey = |r: ResponseRecordV| response_id(r);
            let pd = |r: ResponseRecordV| response_id(r) != id;
            let bkey = |b: (Seq<char>, ChatMessageV)| blob_hash(b);
            let pk = |b: (Seq<char>, ChatMessageV)| referenced(responses3, b.0);
            assert(self@.blobs == blobs1.filter(pk));
            // Responses.
            assert forall|k: Seq<char>| #[trigger] self@.response(k) == if k == id { Some(rec) } else { s0.response(k) } by {
                lemma_last_with_push(responses2, rkey, rec, k);
                lemma_last_with_keep_keys(s0.responses, rkey, pd, |kk: Seq<char>| kk != id, k);
            }
            // Blobs of the new response are found.
            assert forall|j: int| 0 <= j < fps.len() implies #[trigger] blob_of(self@.blobs, fps[j]) == blob_of(blobs1, fps[j]) && blob_of(blobs1, fps[j]) is Some by {
                assert(referenced(responses3, fps[j])) by {
                    assert(responses3[responses3.len() - 1] == rec);
                    assert(rec.refs[j] == fps[j]);
                }
                lemma_last_with_keep_keys(blobs1, bkey, pk, |h: Seq<char>| referenced(responses3, h), fps[j]);
                lemma_interned_lookup(s0.blobs, mv, fps[j]);
                lemma_first_with_hash_some(mv, j);
            }
            lemma_resolved_same(self@.blobs, blobs1, fps);
            // Blobs of the other responses are unchanged.
            assert forall|i: int, j: int| 0 <= i < responses2.len() && 0 <= j < responses2[i].refs.len() implies
                #[trigger] blob_of(self@.blobs, responses2[i].refs[j]) == blob_of(s0.blobs, responses2[i].refs[j])
                && blob_of(s0.blobs, responses2[i].refs[j]) is Some by {
                let h = responses2[i].refs[j];
                lemma_filter_from(s0.responses, pd);
                let x = choose|x: int| 0 <= x < s0.responses.len() && s0.responses[x] == #[trigger] responses2[i];
                assert(s0.responses[x].refs[j] == h);
                assert(blob_of(s0.blobs, s0.responses[x].refs[j]) is Some);
                assert(referenced(responses3, h)) by {
                    assert(responses3[i] == responses2[i]);
                }
                lemma_last_with_keep_keys(blobs1, bkey, pk, |hh: Seq<char>| referenced(responses3, hh), h);
                lemma_interned_lookup(s0.blobs, mv, h);
            }
            assert forall|k: Seq<char>| k != id implies #[trigger] self@.messages_of(k) == s0.messages_of(k) by {
                if let Some(r) = s0.response(k) {
                    lemma_last_with_none(s0.responses, rkey, k);
                    let x = choose|x: int| 0 <= x < s0.responses.len() && #[trigger] s0.responses[x] == r && rkey(r) == k;
                    s0.responses.lemma_filter_contains(pd, x);
                    let y = choose|y: int| 0 <= y < responses2.len() && responses2[y] == r;
                    assert forall|j: int| 0 <= j < r.refs.len() implies blob_of(self@.blobs, #[trigger] r.refs[j]) == blob_of(s0.blobs, r.refs[j]) by {
                        assert(responses2[y].refs[j] == r.refs[j]);
                    }
                    lemma_resolved_same(self@.blobs, s0.blobs, r.refs);
                }
            }
            // Response ids stay unique.
            lemma_keys_unique_filter(s0.responses, rkey, pd);
            assert forall|x: int| 0 <= x < responses2.len() implies rkey(#[trigger] responses2[x]) != id by {
                s0.responses.lemma_filter_pred(pd, x);
            }
            assert forall|a: int, b: int| 0 <= a < responses3.len() && 0 <= b < responses3.len() && rkey(#[trigger] responses3[a]) == rkey(#[trigger] responses3[b]) implies a == b by {
                if a < responses2.len() && b < responses2.len() {
                    assert(responses3[a] == responses2[a] && responses3[b] == responses2[b]);
                } else if a < responses2.len() {
                    assert(responses3[a] == responses2[a]);
                } else if b < responses2.len() {
                    assert(responses3[b] == responses2[b]);
                }
            }
            // Well-formedness.
            assert forall|i: int, j: int| 0 <= i < self@.responses.len() && 0 <= j < self@.responses[i].refs.len() implies
                (#[trigger] blob_of(self@.blobs, self@.responses[i].refs[j])) is Some by {
                if i < responses2.len() {
                    assert(self@.responses[i] == responses2[i]);
                } else {
                    assert(self@.responses[i] == rec);
                    assert(rec.refs[j] == fps[j]);
                }
            }
            // Reasoning.
            assert forall|c: Seq<char>, k: Seq<char>| #[trigger] self@.reasoning_of(c, k) ==
                if c == conversation_of(ostr(state.conversation_id)) && recorded_reasoning(mv, k) is Some {
                    Some(ReasoningV { conversation_id: c, call_id: k, response_id: id, reasoning: recorded_reasoning(mv, k)->0 })
                } else {
                    reasoning_without(s0.reasoning_of(c, k), id)
                } by {
                assert(s5.reasoning_of(c, k) == s5.reasoning_of(c, k));
                assert(pair_of(pair_views(pairs@), k) == pair_of(pair_views(pairs@), k));
                lemma_last_with_keep(s0.reasoning, |e: ReasoningV| reasoning_key(e), |e: ReasoningV| e.response_id != id, (c, k));
            }
        }
    }
}

proof fn lemma_first_with_hash_from(ms: Seq<ChatMessageV>, h: Seq<char>)
    ensures
        first_with_hash(ms, h) matches Some(m) ==> exists|x: int| 0 <= x < ms.len() && #[trigger] ms[x] == m && message_fingerprint(m) == h,
    decreases ms.len(),
{
    if ms.len() > 0 {
        lemma_first_with_hash_from(ms.drop_last(), h);
        if let Some(m) = first_with_hash(ms.drop_last(), h) {
            let x = choose|x: int| 0 <= x < ms.drop_last().len() && #[trigger] ms.drop_last()[x] == m && message_fingerprint(m) == h;
            assert(ms[x] == m);
        }
    }
}

/// What a read gives back of a write: the JSON read for a stored response is
/// the JSON it was stored with, and nothing is read for an id without a
/// response (as after its deletion).
pub proof fn law_json_read_after_write(s: StoreV, id: Seq<char>)
    ensures
        s.response(id) matches Some(rec) ==> s.json_of(id) == Some(rec.response_json),
        s.response(id) is None ==> s.json_of(id) is None,
{
}

/// What a read gives back of a write: a conversation stored after `blobs`
/// resolves to exactly its messages, unless two different messages share a
/// content hash (among its own, or with one already stored).
pub proof fn law_messages_round_trip(blobs: Seq<(Seq<char>, ChatMessageV)>, ms: Seq<ChatMessageV>)
    requires
        forall|i: int| 0 <= i < ms.len() ==> match #[trigger] blob_of(blobs, message_fingerprint(ms[i])) {
            Some(b) => b.1 == ms[i],
            None => true,
        },
        forall|i: int, j: int| 0 <= i < ms.len() && 0 <= j < ms.len() && message_fingerprint(#[trigger] ms[i]) == message_fingerprint(#[trigger] ms[j]) ==> ms[i] == ms[j],
    ensures
        resolved(interned(blobs, ms), fingerprints(ms)) == Some(ms),
{
    let b = interned(blobs, ms);
    let fps = fingerprints(ms);
    assert forall|j: int| 0 <= j < fps.len() implies (#[trigger] blob_of(b, fps[j])) is Some && (blob_of(b, fps[j])->0).1 == ms[j] by {
        lemma_interned_lookup(blobs, ms, fps[j]);
        lemma_first_with_hash_some(ms, j);
        lemma_first_with_hash_from(ms, fps[j]);
        if blob_of(blobs, fps[j]) is None {
            let m = first_with_hash(ms, fps[j])->0;
            let x = choose|x: int| 0 <= x < ms.len() && #[trigger] ms[x] == m && message_fingerprint(m) == fps[j];
            assert(message_fingerprint(ms[x]) == message_fingerprint(ms[j]));
        }
    }
    lemma_resolved_some(b, fps);
    let out = resolved(b, fps)->0;
    assert(out =~= ms);
}

impl MemoryStore {
    /// Removes a response with its canonical messages, its debug artifact and
    /// the reasoning it recorded. Says whether the response was stored.
    #[verifier::rlimit(50)]
    pub fn delete(&mut self, id: &str) -> (existed: bool)
        requires
            old(self)@.wf(),
        ensures
            final(self)@.wf(),
            existed == old(self)@.response(id@) is Some,
            final(self)@.response(id@) is None,
            final(self)@.messages_of(id@) is None,
            final(self)@.debug_of(id@) is None,
            forall|k: Seq<char>| k != id@ ==> #[trigger] final(self)@.response(k) == old(self)@.response(k),
            forall|k: Seq<char>| k != id@ ==> #[trigger] final(self)@.messages_of(k) == old(self)@.messages_of(k),
            forall|k: Seq<char>| k != id@ ==> #[trigger] final(self)@.debug_of(k) == old(self)@.debug_of(k),
            forall|c: Seq<char>, k: Seq<char>| #[trigger] final(self)@.reasoning_of(c, k) == reasoning_without(old(self)@.reasoning_of(c, k), id@),
            final(self)@.ttl == old(self)@.ttl,
            final(self)@.debug_ttl == old(self)@.debug_ttl,
    {
        let ghost s0 = self@;
        let existed = self.response_index(id).is_some();
        self.drop_response_records(id);
        let ghost responses1 = self@.responses;
        self.drop_debug_records(id);
        self.drop_reasoning_of_response(id);
        let ghost s3 = self@;
        self.drop_unreferenced_blobs();
        proof {
            let rkey = |r: ResponseRecordV| response_id(r);
            let pd = |r: ResponseRecordV| response_id(r) != id@;
            let bkey = |b: (Seq<char>, ChatMessageV)| blob_hash(b);
            let pk = |b: (Seq<char>, ChatMessageV)| referenced(responses1, b.0);
            assert forall|k: Seq<char>| #[trigger] self@.response(k) == if k == id@ { None } else { s0.response(k) } by {
                lemma_last_with_keep_keys(s0.responses, rkey, pd, |kk: Seq<char>| kk != id@, k);
            }
            assert forall|k: Seq<char>| #[trigger] self@.debug_of(k) == if k == id@ { None } else { s0.debug_of(k) } by {
                lemma_last_with_keep_keys(s0.debug, |d: (DebugArtifactV, i64)| debug_id(d), |d: (DebugArtifactV, i64)| debug_id(d) != id@, |kk: Seq<char>| kk != id@, k);
            }
            assert forall|i: int, j: int| 0 <= i < responses1.len() && 0 <= j < responses1[i].refs.len() implies
                #[trigger] blob_of(self@.blobs, responses1[i].refs[j]) == blob_of(s0.blobs, responses1[i].refs[j])
                && blob_of(s0.blobs, responses1[i].refs[j]) is Some by {
                let h = responses1[i].refs[j];
                lemma_filter_from(s0.responses, pd);
                let x = choose|x: int| 0 <= x < s0.responses.len() && s0.responses[x] == #[trigger] responses1[i];
                assert(s0.responses[x].refs[j] == h);
                assert(blob_of(s0.blobs, s0.responses[x].refs[j]) is Some);
                lemma_last_with_keep_keys(s3.blobs, bkey, pk, |hh: Seq<char>| referenced(responses1, hh), h);
            }
            assert forall|k: Seq<char>| k != id@ implies #[trigger] self@.messages_of(k) == s0.messages_of(k) by {
                if let Some(r) = s0.response(k) {
                    lemma_last_with_none(s0.responses, rkey, k);
                    let x = choose|x: int| 0 <= x < s0.responses.len() && #[trigger] s0.responses[x] == r && rkey(r) == k;
                    s0.responses.lemma_filter_contains(pd, x);
                    let y = choose|y: int| 0 <= y < responses1.len() && responses1[y] == r;
                    assert forall|j: int| 0 <= j < r.refs.len() implies blob_of(self@.blobs, #[trigger] r.refs[j]) == blob_of(s0.blobs, r.refs[j]) by {
                        assert(responses1[y].refs[j] == r.refs[j]);
                    }
                    lemma_resolved_same(self@.blobs, s0.blobs, r.refs);
                }
            }
            lemma_keys_unique_filter(s0.responses, rkey, pd);
            lemma_keys_unique_filter(s0.debug, |d: (DebugArtifactV, i64)| debug_id(d), |d: (DebugArtifactV, i64)| debug_id(d) != id@);
            lemma_keys_unique_filter(s0.reasoning, |e: ReasoningV| reasoning_key(e), |e: ReasoningV| e.response_id != id@);
            assert forall|c: Seq<char>, k: Seq<char>| #[trigger] self@.reasoning_of(c, k) == reasoning_without(s0.reasoning_of(c, k), id@) by {
                lemma_last_with_keep(s0.reasoning, |e: ReasoningV| reasoning_key(e), |e: ReasoningV| e.response_id != id@, (c, k));
            }
        }
        existed
    }

    /// Empties the store, keeping its lifetimes.
    pub fn clear(&mut self)
        ensures
            final(self)@ == (StoreV {
                responses: Seq::empty(),
                blobs: Seq::empty(),
                debug: Seq::empty(),
                reasoning: Seq::empty(),
                ttl: old(self)@.ttl,
                debug_ttl: old(self)@.debug_ttl,
            }),
            final(self)@.wf(),
    {
        self.responses = Vec::new();
        self.blobs = Vec::new();
        self.debug_artifacts = Vec::new();
        self.reasoning = Vec::new();
        assert(self@.responses =~= Seq::<ResponseRecordV>::empty());
        assert(self@.blobs =~= Seq::<(Seq<char>, ChatMessageV)>::empty());
        assert(self@.debug =~= Seq::<(DebugArtifactV, i64)>::empty());
        assert(self@.reasoning =~= Seq::<ReasoningV>::empty());
    }

    fn reasoning_index(&self, conversation_id: &str, call_id: &str) -> (r: Option<usize>)
        ensures
            match r {
                Some(i) => i < self@.reasoning.len() && self@.reasoning_of(conversation_id@, call_id@) == Some(self@.reasoning[i as int]),
                None => self@.reasoning_of(conversation_id@, call_id@) is None,
            },
    {
        let ghost es = self@.reasoning;
        let ghost key = (conversation_id@, call_id@);
        let mut i: usize = self.reasoning.len();
        assert(es.take(i as int) =~= es);
        while i > 0
            invariant
                es == self@.reasoning,
                key == (conversation_id@, call_id@),
                i <= es.len(),
                last_with(es, |e: ReasoningV| reasoning_key(e), key) == last_with(es.take(i as int), |e: ReasoningV| reasoning_key(e), key),
            decreases i,
        {
            let j = i - 1;
            assert(es.take(i as int).drop_last() =~= es.take(j as int));
            assert(es[j as int] == self.reasoning@[j as int]@);
            if str_eq(self.reasoning[j].conversation_id.as_str(), conversation_id) && str_eq(self.reasoning[j].call_id.as_str(), call_id) {
                return Some(j);
            }
            i = j;
        }
        None
    }

    /// The reasoning recorded in a conversation for each of the given tool
    /// calls that has any, as (call id, reasoning) pairs.
    pub fn find_reasoning_for_call_ids(&self, conversation_id: &str, call_ids: &Vec<String>) -> (r: Vec<(String, String)>)
        ensures
            forall|k: Seq<char>| #[trigger] pair_of(pair_views(r@), k) == if strs(call_ids@).contains(k) && self@.reasoning_of(conversation_id@, k) is Some {
                Some((k, self@.reasoning_of(conversation_id@, k)->0.reasoning))
            } else {
                None
            },
    {
        let ghost ids = strs(call_ids@);
        let mut out: Vec<(String, String)> = Vec::new();
        let mut i: usize = 0;
        while i < call_ids.len()
            invariant
                ids == strs(call_ids@),
                i <= call_ids@.len(),
                forall|k: Seq<char>| #[trigger] pair_of(pair_views(out@), k) == if ids.take(i as int).contains(k) && self@.reasoning_of(conversation_id@, k) is Some {
                    Some((k, self@.reasoning_of(conversation_id@, k)->0.reasoning))
                } else {
                    None
                },
            decreases call_ids@.len() - i,
        {
            let ghost pv = pair_views(out@);
            assert(call_ids@[i as int]@ == ids[i as int]);
            let found = self.reasoning_index(conversation_id, call_ids[i].as_str());
            if let Some(x) = found {
                out.push((call_ids[i].clone(), self.reasoning[x].reasoning.clone()));
                assert(pair_views(out@) =~= pv.push((ids[i as int], self@.reasoning[x as int].reasoning)));
            } else {
                assert(pair_views(out@) == pv);
            }
            assert forall|k: Seq<char>| #[trigger] pair_of(pair_views(out@), k) == if ids.take(i + 1).contains(k) && self@.reasoning_of(conversation_id@, k) is Some {
                Some((k, self@.reasoning_of(conversation_id@, k)->0.reasoning))
            } else {
                None
            } by {
                let ta = ids.take(i as int);
                let tb = ids.take(i + 1);
                assert(tb =~= ta.push(ids[i as int]));
                assert(tb.contains(k) <==> (ta.contains(k) || k == ids[i as int])) by {
                    if tb.contains(k) {
                        let w = choose|w: int| 0 <= w < tb.len() && tb[w] == k;
                        if w < i {
                            assert(ta[w] == k);
                        }
                    }
                    if ta.contains(k) {
                        let w = choose|w: int| 0 <= w < ta.len() && ta[w] == k;
                        assert(tb[w] == k);
                    }
                    if k == ids[i as int] {
                        assert(tb[i as int] == k);
                    }
                }
                assert(pair_of(pv, k) == if ta.contains(k) && self@.reasoning_of(conversation_id@, k) is Some {
                    Some((k, self@.reasoning_of(conversation_id@, k)->0.reasoning))
                } else {
                    None
                });
                if let Some(x) = found {
                    lemma_last_with_push(pv, |q: (Seq<char>, Seq<char>)| pair_key(q), (ids[i as int], self@.reasoning[x as int].reasoning), k);
                }
            }
            i = i + 1;
        }
        assert(ids.take(call_ids@.len() as int) =~= ids);
        out
    }
}

// ---------------------------------------------------------------------------
// Debug artifacts.

/// Why a store operation that reads the clock could not complete.
#[derive(Debug)]
pub enum StoreError {
    /// The system clock is set before the Unix epoch.
    ClockBeforeEpoch,
    /// The expiry time of an artifact does not fit in a timestamp.
    ExpiryOutOfRange,
}

/// The time of a clock reading in whole seconds since the Unix epoch (as a
/// signed timestamp), or `ClockBeforeEpoch` for a reading before the epoch.
pub fn unix_seconds_from_reading(reading: Option<u64>) -> (r: Result<i64, StoreError>)
    ensures
        match reading {
            Some(secs) => r == Ok::<i64, StoreError>(secs as i64),
            None => r matches Err(e) && e is ClockBeforeEpoch,
        },
{
    match reading {
        Some(secs) => Ok(secs as i64),
        None => Err(StoreError::ClockBeforeEpoch),
    }
}

/// The current time in whole seconds since the Unix epoch. What it is rests
/// on the system clock; it fails only for a clock set before the epoch.
pub fn now_unix_seconds() -> (r: Result<i64, StoreError>)
    ensures
        r matches Err(e) ==> e is ClockBeforeEpoch,
{
    unix_seconds_from_reading(crate::clock::unix_seconds_now())
}

fn clone_strings(v: &Vec<String>) -> (r: Vec<String>)
    ensures
        strs(r@) == strs(v@),
{
    let mut out: Vec<String> = Vec::new();
    let mut i: usize = 0;
    while i < v.len()
        invariant
            i <= v@.len(),
            out@.len() == i,
            forall|k: int| 0 <= k < i ==> (#[trigger] out@[k])@ == v@[k]@,
        decreases v@.len() - i,
    {
        out.push(v[i].clone());
        i = i + 1;
    }
    assert(strs(out@) =~= strs(v@));
    out
}

fn clone_jsons(v: &Vec<JsonValue>) -> (r: Vec<JsonValue>)
    ensures
        jsons(r@) == jsons(v@),
{
    let mut out: Vec<JsonValue> = Vec::new();
    let mut i: usize = 0;
    while i < v.len()
        invariant
            i <= v@.len(),
            out@.len() == i,
            forall|k: int| 0 <= k < i ==> (#[trigger] out@[k])@ == v@[k]@,
        decreases v@.len() - i,
    {
        out.push(v[i].deep_clone());
        i = i + 1;
    }
    assert(jsons(out@) =~= jsons(v@));
    out
}

fn clone_opt_json(o: &Option<JsonValue>) -> (r: Option<JsonValue>)
    ensures
        ojson(r) == ojson(*o),
{
    match o {
        Some(v) => Some(v.deep_clone()),
        None => None,
    }
}

/// The served form of a stored artifact.
fn debug_view(record: &DebugArtifactRecord) -> (r: DebugArtifactView)
    ensures
        r@ == record@,
{
    let a = &record.artifact;
    DebugArtifactView {
        id: a.id.clone(),
        model: a.model.clone(),
        created_at: a.created_at,
        status: a.status.clone(),
        request_json: a.request_json.deep_clone(),
        mapped_request_json: a.mapped_request_json.deep_clone(),
        upstream_error: clone_opt_json(&a.upstream_error),
        debug_annotations: clone_strings(&a.debug_annotations),
        upstream_sse_events: clone_jsons(&a.upstream_sse_events),
        response_sse_events: clone_jsons(&a.response_sse_events),
        conversation_id: clone_opt_string(&a.conversation_id),
        artifact_expires_at: record.expires_at,
    }
}

impl MemoryStore {
    fn debug_index(&self, id: &str) -> (r: Option<usize>)
        ensures
            match r {
                Some(i) => i < self@.debug.len() && self@.debug_of(id@) == Some(self@.debug[i as int]),
                None => self@.debug_of(id@) is None,
            },
    {
        let ghost ds = self@.debug;
        let mut i: usize = self.debug_artifacts.len();
        assert(ds.take(i as int) =~= ds);
        while i > 0
            invariant
                ds == self@.debug,
                i <= ds.len(),
                last_with(ds, |d: (DebugArtifactV, i64)| debug_id(d), id@) == last_with(ds.take(i as int), |d: (DebugArtifactV, i64)| debug_id(d), id@),
            decreases i,
        {
            let j = i - 1;
            assert(ds.take(i as int).drop_last() =~= ds.take(j as int));
            assert(ds[j as int] == self.debug_artifacts@[j as int]@);
            if str_eq(self.debug_artifacts[j].artifact.id.as_str(), id) {
                return Some(j);
            }
            i = j;
        }
        None
    }

    /// Stores the debug artifact of a response, expiring `now` plus the debug
    /// lifetime, in place of any earlier one for that response.
    pub fn put_debug_artifact_at(&mut self, artifact: DebugArtifact, now: i64)
        requires
            old(self)@.wf(),
            i64::MIN <= now + (old(self)@.debug_ttl as i64) <= i64::MAX,
        ensures
            final(self)@.wf(),
            final(self)@ == (StoreV { debug: final(self)@.debug, ..old(self)@ }),
            forall|k: Seq<char>| #[trigger] final(self)@.debug_of(k) == if k == artifact.id@ {
                Some((artifact@, (now + (old(self)@.debug_ttl as i64)) as i64))
            } else {
                old(self)@.debug_of(k)
            },
    {
        let ghost s0 = self@;
        let ghost av = artifact@;
        let expires_at = now + self.debug_ttl_seconds as i64;
        self.drop_debug_records(artifact.id.as_str());
        let ghost d1 = self@.debug;
        self.debug_artifacts.push(DebugArtifactRecord { artifact, expires_at });
        assert(self@.debug =~= d1.push((av, expires_at)));
        proof {
            assert forall|k: Seq<char>| #[trigger] self@.debug_of(k) == if k == av.id { Some((av, expires_at)) } else { s0.debug_of(k) } by {
                lemma_last_with_push(d1, |d: (DebugArtifactV, i64)| debug_id(d), (av, expires_at), k);
                lemma_last_with_keep_keys(s0.debug, |d: (DebugArtifactV, i64)| debug_id(d), |d: (DebugArtifactV, i64)| debug_id(d) != av.id, |kk: Seq<char>| kk != av.id, k);
            }
            let pd = |d: (DebugArtifactV, i64)| debug_id(d) != av.id;
            lemma_keys_unique_filter(s0.debug, |d: (DebugArtifactV, i64)| debug_id(d), pd);
            assert forall|x: int| 0 <= x < d1.len() implies debug_id(#[trigger] d1[x]) != av.id by {
                s0.debug.lemma_filter_pred(pd, x);
            }
            let nd = self@.debug;
            assert forall|a: int, b: int| 0 <= a < nd.len() && 0 <= b < nd.len() && debug_id(#[trigger] nd[a]) == debug_id(#[trigger] nd[b]) implies a == b by {
                if a < d1.len() && b < d1.len() {
                    assert(nd[a] == d1[a] && nd[b] == d1[b]);
                } else if a < d1.len() {
                    assert(nd[a] == d1[a]);
                } else if b < d1.len() {
                    assert(nd[b] == d1[b]);
                }
            }
        }
    }

    /// Stores the debug artifact of a response, expiring after the debug
    /// lifetime from now: as `put_debug_artifact_at` at the clock's reading.
    /// It fails, changing nothing, when the clock reads before the epoch or
    /// the expiry does not fit in a timestamp.
    pub fn put_debug_artifact(&mut self, artifact: DebugArtifact) -> (r: Result<(), StoreError>)
        requires
            old(self)@.wf(),
        ensures
            final(self)@.wf(),
            r is Ok ==> exists|now: i64| #[trigger] debug_put_at(old(self)@, final(self)@, artifact@, now),
            r matches Err(e) ==> (e is ClockBeforeEpoch || e is ExpiryOutOfRange) && final(self)@ == old(self)@,
    {
        let now = now_unix_seconds()?;
        let ttl = self.debug_ttl_seconds as i64;
        if (ttl > 0 && now > i64::MAX - ttl) || (ttl < 0 && now < i64::MIN - ttl) {
            return Err(StoreError::ExpiryOutOfRange);
        }
        let ghost av = artifact@;
        let ghost s0 = self@;
        self.put_debug_artifact_at(artifact, now);
        assert(debug_put_at(s0, self@, av, now));
        Ok(())
    }

    /// The debug artifact of a response at time `now`; an expired one is
    /// removed and not returned.
    pub fn get_debug_artifact_at(&mut self, id: &str, now: i64) -> (r: Option<DebugArtifactView>)
        requires
            old(self)@.wf(),
        ensures
            final(self)@.wf(),
            match old(self)@.debug_of(id@) {
                Some((a, expires_at)) => if expires_at <= now {
                    r is None && final(self)@ == (StoreV {
                        debug: old(self)@.debug.filter(|d: (DebugArtifactV, i64)| debug_id(d) != id@),
                        ..old(self)@
                    })
                } else {
                    r matches Some(v) && v@ == (a, expires_at) && final(self)@ == old(self)@
                },
                None => r is None && final(self)@ == old(self)@,
            },
    {
        match self.debug_index(id) {
            None => None,
            Some(i) => {
                if self.debug_artifacts[i].expires_at <= now {
                    let ghost s0 = self@;
                    self.drop_debug_records(id);
                    proof {
                        lemma_keys_unique_filter(s0.debug, |d: (DebugArtifactV, i64)| debug_id(d), |d: (DebugArtifactV, i64)| debug_id(d) != id@);
                    }
                    None
                } else {
                    Some(debug_view(&self.debug_artifacts[i]))
                }
            }
        }
    }

    /// The debug artifact of a response, unless it has expired: as
    /// `get_debug_artifact_at` at the clock's reading. It fails, changing
    /// nothing, only when the clock reads before the epoch.
    pub fn get_debug_artifact(&mut self, id: &str) -> (r: Result<Option<DebugArtifactView>, StoreError>)
        requires
            old(self)@.wf(),
        ensures
            final(self)@.wf(),
            r matches Ok(Some(v)) ==> old(self)@.debug_of(id@) == Some(v@),
            r matches Ok(o) ==> exists|now: i64| #[trigger] debug_read_at(old(self)@, final(self)@, id@,
                artifact_views(o), now),
            r matches Err(e) ==> e is ClockBeforeEpoch && final(self)@ == old(self)@,
    {
        let now = now_unix_seconds()?;
        let ghost s0 = self@;
        let got = self.get_debug_artifact_at(id, now);
        assert(debug_read_at(s0, self@, id@, artifact_views(got), now));
        let r: Result<Option<DebugArtifactView>, StoreError> = Ok(got);
        assert(r matches Ok(o) && debug_read_at(s0, self@, id@, artifact_views(o), now));
        r
    }
}

/// The view of an artifact that may have been read.
pub open spec fn artifact_views(o: Option<DebugArtifactView>) -> Option<(DebugArtifactV, i64)> {
    match o {
        Some(v) => Some(v@),
        None => None,
    }
}

/// The store `s1` and the artifact `got` are what reading the debug artifact
/// of `id` from `s0` at time `now` gives: an expired one is removed and not
/// returned.
pub open spec fn debug_read_at(s0: StoreV, s1: StoreV, id: Seq<char>, got: Option<(DebugArtifactV, i64)>, now: i64) -> bool {
    match s0.debug_of(id) {
        Some((a, expires_at)) => if expires_at <= now {
            got is None && s1 == (StoreV {
                debug: s0.debug.filter(|d: (DebugArtifactV, i64)| debug_id(d) != id),
                ..s0
            })
        } else {
            got == Some((a, expires_at)) && s1 == s0
        },
        None => got is None && s1 == s0,
    }
}

/// The store `s1` is `s0` after the cleanup at time `now`: expired responses
/// go with their debug artifacts and reasoning, and so do expired artifacts.
pub open spec fn cleaned_at(s0: StoreV, s1: StoreV, now: i64) -> bool {
    &&& s1.ttl == s0.ttl
    &&& s1.debug_ttl == s0.debug_ttl
    &&& forall|k: Seq<char>| #[trigger] s1.response(k) == match s0.response(k) {
        Some(x) => if x.expires_at <= now { None } else { Some(x) },
        None => None,
    }
    &&& forall|k: Seq<char>| s1.response(k) is Some ==> #[trigger] s1.messages_of(k) == s0.messages_of(k)
    &&& forall|k: Seq<char>| #[trigger] s1.debug_of(k) == match s0.debug_of(k) {
        Some(d) => if expired_id(s0.responses, now, k) || d.1 <= now { None } else { Some(d) },
        None => None,
    }
    &&& forall|c: Seq<char>, k: Seq<char>| #[trigger] s1.reasoning_of(c, k) == match s0.reasoning_of(c, k) {
        Some(e) => if expired_id(s0.responses, now, e.response_id) { None } else { Some(e) },
        None => None,
    }
}

/// The store `s1` is `s0` with `artifact` stored at time `now`, expiring
/// after the debug lifetime, in place of any earlier one for its response.
pub open spec fn debug_put_at(s0: StoreV, s1: StoreV, artifact: DebugArtifactV, now: i64) -> bool {
    &&& s1 == (StoreV { debug: s1.debug, ..s0 })
    &&& forall|k: Seq<char>| #[trigger] s1.debug_of(k) == if k == artifact.id {
        Some((artifact, (now + (s0.debug_ttl as i64)) as i64))
    } else {
        s0.debug_of(k)
    }
}

/// The debug records of `ds` that have not expired at `now`.
pub open spec fn alive_debug(ds: Seq<(DebugArtifactV, i64)>, now: i64) -> Seq<(DebugArtifactV, i64)> {
    ds.filter(|d: (DebugArtifactV, i64)| d.1 > now)
}

/// The store `s1` is `s0` without the artifacts expired at `now`, and
/// `listed` is the first `limit` of what is left, newest first.
pub open spec fn debug_listed_at(s0: StoreV, s1: StoreV, listed: Seq<(DebugArtifactV, i64)>, limit: usize, now: i64) -> bool {
    &&& s1 == (StoreV { debug: alive_debug(s0.debug, now), ..s0 })
    &&& listed == listing_order(s1.debug).take(
        if limit < s1.debug.len() { limit as int } else { s1.debug.len() as int },
    )
}

/// Whether artifact `a` is listed before `b`: newer first, then by id, last first.
pub open spec fn listed_before(a: (DebugArtifactV, i64), b: (DebugArtifactV, i64)) -> bool {
    a.0.created_at > b.0.created_at || (a.0.created_at == b.0.created_at && seq_lt(b.0.id, a.0.id))
}

/// The position of the artifact that comes first in a listing.
pub open spec fn first_listed(ds: Seq<(DebugArtifactV, i64)>) -> int
    decreases ds.len(),
{
    if ds.len() <= 1 {
        0
    } else {
        let m = first_listed(ds.drop_last());
        if listed_before(ds.last(), ds[m]) {
            ds.len() - 1
        } else {
            m
        }
    }
}

/// Artifacts in listing order: newest first.
pub open spec fn listing_order(ds: Seq<(DebugArtifactV, i64)>) -> Seq<(DebugArtifactV, i64)>
    decreases ds.len(),
{
    if ds.len() == 0 {
        Seq::empty()
    } else {
        let m = first_listed(ds);
        if 0 <= m < ds.len() {
            seq![ds[m]] + listing_order(ds.remove(m))
        } else {
            Seq::empty()
        }
    }
}

proof fn lemma_listed_before_transitive(a: (DebugArtifactV, i64), b: (DebugArtifactV, i64), c: (DebugArtifactV, i64))
    requires
        listed_before(a, b),
        listed_before(b, c),
    ensures
        listed_before(a, c),
{
    if a.0.created_at == b.0.created_at && b.0.created_at == c.0.created_at {
        crate::text::lemma_seq_lt_transitive(c.0.id, b.0.id, a.0.id);
    }
}

proof fn lemma_first_listed_newest(ds: Seq<(DebugArtifactV, i64)>)
    requires
        ds.len() > 0,
    ensures
        0 <= first_listed(ds) < ds.len(),
        forall|j: int| 0 <= j < ds.len() ==> (#[trigger] ds[j]).0.created_at <= ds[first_listed(ds)].0.created_at,
        forall|j: int| 0 <= j < ds.len() ==> !listed_before(#[trigger] ds[j], ds[first_listed(ds)]),
    decreases ds.len(),
{
    if ds.len() > 1 {
        lemma_first_listed_newest(ds.drop_last());
        let m0 = first_listed(ds.drop_last());
        assert forall|j: int| 0 <= j < ds.len() implies (#[trigger] ds[j]).0.created_at <= ds[first_listed(ds)].0.created_at by {
            if j < ds.len() - 1 {
                assert(ds.drop_last()[j] == ds[j]);
            }
        }
        assert forall|j: int| 0 <= j < ds.len() implies !listed_before(#[trigger] ds[j], ds[first_listed(ds)]) by {
            if j < ds.len() - 1 {
                assert(ds.drop_last()[j] == ds[j]);
                assert(ds.drop_last()[m0] == ds[m0]);
                if listed_before(ds.last(), ds[m0]) && listed_before(ds[j], ds.last()) {
                    lemma_listed_before_transitive(ds[j], ds.last(), ds[m0]);
                }
            } else {
                crate::text::lemma_seq_lt_irreflexive(ds[j].0.id);
                if !listed_before(ds.last(), ds[m0]) {
                    assert(ds.drop_last()[m0] == ds[m0]);
                }
            }
        }
    } else {
        crate::text::lemma_seq_lt_irreflexive(ds[0].0.id);
    }
}

/// Listings put newer artifacts first, artifacts of the same second by
/// descending id, and hold each artifact once.
pub proof fn law_listing_newest_first(ds: Seq<(DebugArtifactV, i64)>)
    ensures
        listing_order(ds).to_multiset() =~= ds.to_multiset(),
        forall|i: int, j: int| 0 <= i < j < listing_order(ds).len() ==> (#[trigger] listing_order(ds)[i]).0.created_at >= (#[trigger] listing_order(ds)[j]).0.created_at,
        forall|i: int, j: int| 0 <= i < j < listing_order(ds).len() && (#[trigger] listing_order(ds)[i]).0.created_at == (#[trigger] listing_order(ds)[j]).0.created_at
            ==> !crate::text::seq_lt(listing_order(ds)[i].0.id, listing_order(ds)[j].0.id),
    decreases ds.len(),
{
    broadcast use vstd::seq_lib::group_to_multiset_ensures;
    if ds.len() > 0 {
        lemma_first_listed_newest(ds);
        let m = first_listed(ds);
        let rest = ds.remove(m);
        law_listing_newest_first(rest);
        let sr = listing_order(rest);
        assert(listing_order(ds) == seq![ds[m]] + sr);
        assert(seq![ds[m]] + sr =~= sr.insert(0, ds[m]));
        assert((seq![ds[m]] + sr).to_multiset() =~= sr.to_multiset().insert(ds[m]));
        assert(ds.to_multiset() =~= rest.to_multiset().insert(ds[m]));
        assert forall|k: int| 0 <= k < sr.len() implies ds[m].0.created_at >= (#[trigger] sr[k]).0.created_at
            && !listed_before(sr[k], ds[m]) by {
            assert(sr.to_multiset().count(sr[k]) > 0);
            assert(rest.contains(sr[k]));
            let w = choose|w: int| 0 <= w < rest.len() && rest[w] == sr[k];
            if w < m {
                assert(rest[w] == ds[w]);
            } else {
                assert(rest[w] == ds[w + 1]);
            }
        }
        assert forall|i: int, j: int| 0 <= i < j < listing_order(ds).len() implies (#[trigger] listing_order(ds)[i]).0.created_at >= (#[trigger] listing_order(ds)[j]).0.created_at by {
            if i == 0 {
                assert(listing_order(ds)[j] == sr[j - 1]);
            } else {
                assert(listing_order(ds)[i] == sr[i - 1]);
                assert(listing_order(ds)[j] == sr[j - 1]);
            }
        }
        assert forall|i: int, j: int| 0 <= i < j < listing_order(ds).len() && (#[trigger] listing_order(ds)[i]).0.created_at == (#[trigger] listing_order(ds)[j]).0.created_at
            implies !crate::text::seq_lt(listing_order(ds)[i].0.id, listing_order(ds)[j].0.id) by {
            if i == 0 {
                assert(listing_order(ds)[j] == sr[j - 1]);
            } else {
                assert(listing_order(ds)[i] == sr[i - 1]);
                assert(listing_order(ds)[j] == sr[j - 1]);
            }
        }
    }
}

proof fn lemma_first_listed_bounds(ds: Seq<(DebugArtifactV, i64)>)
    requires
        ds.len() > 0,
    ensures
        0 <= first_listed(ds) < ds.len(),
    decreases ds.len(),
{
    if ds.len() > 1 {
        lemma_first_listed_bounds(ds.drop_last());
    }
}

proof fn lemma_listing_len(ds: Seq<(DebugArtifactV, i64)>)
    ensures
        listing_order(ds).len() == ds.len(),
    decreases ds.len(),
{
    if ds.len() > 0 {
        lemma_first_listed_bounds(ds);
        lemma_listing_len(ds.remove(first_listed(ds)));
    }
}

pub open spec fn picked_debug(ds: Seq<(DebugArtifactV, i64)>, idx: Seq<usize>) -> Seq<(DebugArtifactV, i64)> {
    Seq::new(idx.len(), |k: int| ds[idx[k] as int])
}

fn listed_before_exec(a: &DebugArtifactRecord, b: &DebugArtifactRecord) -> (r: bool)
    ensures
        r == listed_before(a@, b@),
{
    a.artifact.created_at > b.artifact.created_at
        || (a.artifact.created_at == b.artifact.created_at && crate::text::str_less(b.artifact.id.as_str(), a.artifact.id.as_str()))
}

impl MemoryStore {
    fn first_listed_position(&self, remaining: &Vec<usize>) -> (r: usize)
        requires
            remaining@.len() > 0,
            forall|k: int| 0 <= k < remaining@.len() ==> (#[trigger] remaining@[k]) < self@.debug.len(),
        ensures
            r as int == first_listed(picked_debug(self@.debug, remaining@)),
            r < remaining@.len(),
    {
        let ghost rv = picked_debug(self@.debug, remaining@);
        let mut m: usize = 0;
        let mut j: usize = 1;
        assert(rv.take(1).len() == 1);
        while j < remaining.len()
            invariant
                rv == picked_debug(self@.debug, remaining@),
                forall|k: int| 0 <= k < remaining@.len() ==> (#[trigger] remaining@[k]) < self@.debug.len(),
                self@.debug.len() == self.debug_artifacts@.len(),
                1 <= j <= remaining@.len(),
                m < j,
                m as int == first_listed(rv.take(j as int)),
            decreases remaining@.len() - j,
        {
            assert(rv.take(j + 1).drop_last() =~= rv.take(j as int));
            assert(rv.take(j + 1).last() == rv[j as int]);
            assert(rv.take(j + 1)[m as int] == rv[m as int]);
            let a = remaining[j];
            let b = remaining[m];
            assert(self@.debug[a as int] == self.debug_artifacts@[a as int]@);
            assert(self@.debug[b as int] == self.debug_artifacts@[b as int]@);
            if listed_before_exec(&self.debug_artifacts[a], &self.debug_artifacts[b]) {
                m = j;
            }
            j = j + 1;
        }
        assert(rv.take(remaining@.len() as int) =~= rv);
        m
    }

    fn listing_indices(&self) -> (r: Vec<usize>)
        ensures
            picked_debug(self@.debug, r@) == listing_order(self@.debug),
            forall|k: int| 0 <= k < r@.len() ==> (#[trigger] r@[k]) < self@.debug.len(),
    {
        let n = self.debug_artifacts.len();
        let mut remaining: Vec<usize> = Vec::new();
        let mut i: usize = 0;
        while i < n
            invariant
                n == self.debug_artifacts@.len(),
                n == self@.debug.len(),
                i <= n,
                remaining@.len() == i,
                forall|k: int| 0 <= k < i ==> (#[trigger] remaining@[k]) == k,
            decreases n - i,
        {
            remaining.push(i);
            i = i + 1;
        }
        assert(picked_debug(self@.debug, remaining@) =~= self@.debug);
        let mut order: Vec<usize> = Vec::new();
        assert(picked_debug(self@.debug, order@) =~= Seq::<(DebugArtifactV, i64)>::empty());
        while remaining.len() > 0
            invariant
                n == self@.debug.len(),
                forall|k: int| 0 <= k < remaining@.len() ==> (#[trigger] remaining@[k]) < n,
                forall|k: int| 0 <= k < order@.len() ==> (#[trigger] order@[k]) < n,
                listing_order(self@.debug) == picked_debug(self@.debug, order@) + listing_order(picked_debug(self@.debug, remaining@)),
            decreases remaining@.len(),
        {
            let ghost rv = picked_debug(self@.debug, remaining@);
            let pos = self.first_listed_position(&remaining);
            proof { lemma_first_listed_bounds(rv); }
            let ghost before_order = order@;
            let chosen = remaining.remove(pos);
            order.push(chosen);
            assert(picked_debug(self@.debug, remaining@) =~= rv.remove(pos as int));
            assert(picked_debug(self@.debug, order@) =~= picked_debug(self@.debug, before_order).push(rv[pos as int]));
            assert(listing_order(rv) == seq![rv[pos as int]] + listing_order(rv.remove(pos as int)));
            assert(picked_debug(self@.debug, order@) + listing_order(picked_debug(self@.debug, remaining@))
                =~= picked_debug(self@.debug, before_order) + listing_order(rv));
        }
        assert(listing_order(picked_debug(self@.debug, remaining@)) =~= Seq::<(DebugArtifactV, i64)>::empty());
        assert(picked_debug(self@.debug, order@) + Seq::<(DebugArtifactV, i64)>::empty() =~= picked_debug(self@.debug, order@));
        order
    }

    /// The debug artifacts that have not expired at `now`, newest first, at
    /// most `limit` of them. Expired artifacts are removed.
    pub fn list_debug_artifacts_at(&mut self, limit: usize, now: i64) -> (r: Vec<DebugArtifactView>)
        requires
            old(self)@.wf(),
        ensures
            final(self)@.wf(),
            final(self)@ == (StoreV { debug: alive_debug(old(self)@.debug, now), ..old(self)@ }),
            views_of(r@) == listing_order(final(self)@.debug).take(
                if limit < final(self)@.debug.len() { limit as int } else { final(self)@.debug.len() as int },
            ),
    {
        let ghost s0 = self@;
        self.drop_expired_debug(now);
        proof {
            lemma_keys_unique_filter(s0.debug, |d: (DebugArtifactV, i64)| debug_id(d), |d: (DebugArtifactV, i64)| d.1 > now);
        }
        let order = self.listing_indices();
        let ghost lo = listing_order(self@.debug);
        let count = if limit < order.len() { limit } else { order.len() };
        let mut out: Vec<DebugArtifactView> = Vec::new();
        let mut k: usize = 0;
        while k < count
            invariant
                lo == listing_order(self@.debug),
                picked_debug(self@.debug, order@) == lo,
                forall|x: int| 0 <= x < order@.len() ==> (#[trigger] order@[x]) < self@.debug.len(),
                self@.debug.len() == self.debug_artifacts@.len(),
                count <= order@.len(),
                k <= count,
                views_of(out@) == lo.take(k as int),
            decreases count - k,
        {
            let idx = order[k];
            assert(lo[k as int] == self.debug_artifacts@[idx as int]@);
            let ghost before = views_of(out@);
            out.push(debug_view(&self.debug_artifacts[idx]));
            assert(views_of(out@) =~= before.push(lo[k as int]));
            assert(lo.take(k + 1) =~= lo.take(k as int).push(lo[k as int]));
            k = k + 1;
        }
        proof { lemma_listing_len(self@.debug); }
        assert(picked_debug(self@.debug, order@).len() == order@.len());
        out
    }

    /// The debug artifacts that have not expired, newest first, at most
    /// `limit`: as `list_debug_artifacts_at` at the clock's reading. It fails,
    /// changing nothing, only when the clock reads before the epoch.
    pub fn list_debug_artifacts(&mut self, limit: usize) -> (r: Result<Vec<DebugArtifactView>, StoreError>)
        requires
            old(self)@.wf(),
        ensures
            final(self)@.wf(),
            r matches Ok(v) ==> v@.len() <= limit,
            r matches Ok(v) ==> exists|now: i64| #[trigger] debug_listed_at(old(self)@, final(self)@, views_of(v@), limit, now),
            r matches Err(e) ==> e is ClockBeforeEpoch && final(self)@ == old(self)@,
    {
        let now = now_unix_seconds()?;
        let ghost s0 = self@;
        let out = self.list_debug_artifacts_at(limit, now);
        proof { lemma_listing_len(self@.debug); }
        assert(views_of(out@).len() == out@.len());
        assert(debug_listed_at(s0, self@, views_of(out@), limit, now));
        let r: Result<Vec<DebugArtifactView>, StoreError> = Ok(out);
        assert(r matches Ok(v) && debug_listed_at(s0, self@, views_of(v@), limit, now));
        r
    }
}

fn contains_str(v: &Vec<String>, x: &str) -> (r: bool)
    ensures
        r == strs(v@).contains(x@),
{
    let mut i: usize = 0;
    while i < v.len()
        invariant
            i <= v@.len(),
            forall|k: int| 0 <= k < i ==> (#[trigger] v@[k])@ != x@,
        decreases v@.len() - i,
    {
        if str_eq(v[i].as_str(), x) {
            assert(strs(v@)[i as int] == x@);
            return true;
        }
        i = i + 1;
    }
    assert forall|k: int| 0 <= k < strs(v@).len() implies strs(v@)[k] != x@ by {
        assert(strs(v@)[k] == v@[k]@);
    }
    false
}

/// Whether a response with id `id` in `rs` has expired at `now`.
pub open spec fn expired_id(rs: Seq<ResponseRecordV>, now: i64, id: Seq<char>) -> bool {
    exists|i: int| 0 <= i < rs.len() && (#[trigger] rs[i]).id == id && rs[i].expires_at <= now
}

impl MemoryStore {
    fn expired_ids(&self, now: i64) -> (r: Vec<String>)
        ensures
            forall|id: Seq<char>| #[trigger] strs(r@).contains(id) <==> expired_id(self@.responses, now, id),
    {
        let ghost rs = self@.responses;
        let mut out: Vec<String> = Vec::new();
        let mut i: usize = 0;
        while i < self.responses.len()
            invariant
                rs == self@.responses,
                i <= rs.len(),
                forall|id: Seq<char>| #[trigger] strs(out@).contains(id) <==> exists|x: int| 0 <= x < i && (#[trigger] rs[x]).id == id && rs[x].expires_at <= now,
            decreases rs.len() - i,
        {
            let ghost before = strs(out@);
            assert(rs[i as int] == self.responses@[i as int]@);
            if self.responses[i].expires_at <= now {
                out.push(self.responses[i].id.clone());
                assert(strs(out@) =~= before.push(rs[i as int].id));
            }
            assert forall|id: Seq<char>| #[trigger] strs(out@).contains(id) <==> exists|x: int| 0 <= x < i + 1 && (#[trigger] rs[x]).id == id && rs[x].expires_at <= now by {
                if strs(out@).contains(id) && !before.contains(id) {
                    assert(rs[i as int].id == id);
                }
                if before.contains(id) {
                    let w = choose|w: int| 0 <= w < before.len() && before[w] == id;
                    assert(strs(out@)[w] == id);
                }
                if exists|x: int| 0 <= x < i + 1 && (#[trigger] rs[x]).id == id && rs[x].expires_at <= now {
                    let x = choose|x: int| 0 <= x < i + 1 && (#[trigger] rs[x]).id == id && rs[x].expires_at <= now;
                    if x == i {
                        assert(strs(out@)[strs(out@).len() - 1] == id);
                    }
                }
            }
            i = i + 1;
        }
        out
    }

    /// Removes the responses that have expired at `now`, with their messages,
    /// debug artifacts and reasoning, and the debug artifacts that have
    /// expired. Returns how many responses and artifacts were removed.
    #[verifier::rlimit(60)]
    pub fn cleanup_expired_at(&mut self, now: i64) -> (r: usize)
        requires
            old(self)@.wf(),
            old(self)@.responses.len() + old(self)@.debug.len() <= usize::MAX,
        ensures
            final(self)@.wf(),
            final(self)@.ttl == old(self)@.ttl,
            final(self)@.debug_ttl == old(self)@.debug_ttl,
            forall|k: Seq<char>| #[trigger] final(self)@.response(k) == match old(self)@.response(k) {
                Some(x) => if x.expires_at <= now { None } else { Some(x) },
                None => None,
            },
            forall|k: Seq<char>| final(self)@.response(k) is Some ==> #[trigger] final(self)@.messages_of(k) == old(self)@.messages_of(k),
            forall|k: Seq<char>| #[trigger] final(self)@.debug_of(k) == match old(self)@.debug_of(k) {
                Some(d) => if expired_id(old(self)@.responses, now, k) || d.1 <= now { None } else { Some(d) },
                None => None,
            },
            forall|c: Seq<char>, k: Seq<char>| #[trigger] final(self)@.reasoning_of(c, k) == match old(self)@.reasoning_of(c, k) {
                Some(e) => if expired_id(old(self)@.responses, now, e.response_id) { None } else { Some(e) },
                None => None,
            },
            r as int == (old(self)@.responses.len() - final(self)@.responses.len())
                + (old(self)@.debug.filter(|d: (DebugArtifactV, i64)| !expired_id(old(self)@.responses, now, debug_id(d))).len() - final(self)@.debug.len()),
    {
        let ghost s0 = self@;
        let ids = self.expired_ids(now);
        let before_responses = self.responses.len();
        self.drop_expired_responses(now);
        let ghost responses1 = self@.responses;
        let expired_count = before_responses - self.responses.len();
        self.drop_debug_of_ids(&ids);
        let ghost debug1 = self@.debug;
        self.drop_reasoning_of_ids(&ids);
        let ghost s3 = self@;
        self.drop_unreferenced_blobs();
        let before_debug = self.debug_artifacts.len();
        self.drop_expired_debug(now);
        proof {
            let rkey = |r: ResponseRecordV| response_id(r);
            let pr = |r: ResponseRecordV| r.expires_at > now;
            let dkey = |d: (DebugArtifactV, i64)| debug_id(d);
            let pdi = |d: (DebugArtifactV, i64)| !strs(ids@).contains(debug_id(d));
            let pdx = |d: (DebugArtifactV, i64)| d.1 > now;
            let bkey = |b: (Seq<char>, ChatMessageV)| blob_hash(b);
            let pk = |b: (Seq<char>, ChatMessageV)| referenced(responses1, b.0);
            let pe = |e: ReasoningV| !strs(ids@).contains(e.response_id);
            assert(debug1 == s0.debug.filter(pdi));
            assert(self@.debug == debug1.filter(pdx));
            lemma_keys_unique_filter(s0.responses, rkey, pr);
            lemma_keys_unique_filter(s0.debug, dkey, pdi);
            lemma_keys_unique_filter(debug1, dkey, pdx);
            lemma_keys_unique_filter(s0.reasoning, |e: ReasoningV| reasoning_key(e), pe);
            assert forall|k: Seq<char>| #[trigger] self@.response(k) == match s0.response(k) {
                Some(x) => if x.expires_at <= now { None } else { Some(x) },
                None => None,
            } by {
                lemma_last_with_keep(s0.responses, rkey, pr, k);
            }
            assert forall|i: int, j: int| 0 <= i < responses1.len() && 0 <= j < responses1[i].refs.len() implies
                #[trigger] blob_of(self@.blobs, responses1[i].refs[j]) == blob_of(s0.blobs, responses1[i].refs[j])
                && blob_of(s0.blobs, responses1[i].refs[j]) is Some by {
                let h = responses1[i].refs[j];
                lemma_filter_from(s0.responses, pr);
                let x = choose|x: int| 0 <= x < s0.responses.len() && s0.responses[x] == #[trigger] responses1[i];
                assert(s0.responses[x].refs[j] == h);
                assert(blob_of(s0.blobs, s0.responses[x].refs[j]) is Some);
                lemma_last_with_keep_keys(s3.blobs, bkey, pk, |hh: Seq<char>| referenced(responses1, hh), h);
            }
            assert forall|k: Seq<char>| self@.response(k) is Some implies #[trigger] self@.messages_of(k) == s0.messages_of(k) by {
                let r = self@.response(k)->0;
                lemma_last_with_none(responses1, rkey, k);
                let y = choose|y: int| 0 <= y < responses1.len() && #[trigger] responses1[y] == r && rkey(r) == k;
                assert forall|j: int| 0 <= j < r.refs.len() implies blob_of(self@.blobs, #[trigger] r.refs[j]) == blob_of(s0.blobs, r.refs[j]) by {
                    assert(responses1[y].refs[j] == r.refs[j]);
                }
                lemma_resolved_same(self@.blobs, s0.blobs, r.refs);
                lemma_last_with_keep(s0.responses, rkey, pr, k);
            }
            assert forall|k: Seq<char>| #[trigger] self@.debug_of(k) == match s0.debug_of(k) {
                Some(d) => if expired_id(s0.responses, now, k) || d.1 <= now { None } else { Some(d) },
                None => None,
            } by {
                lemma_last_with_keep_keys(s0.debug, dkey, pdi, |kk: Seq<char>| !strs(ids@).contains(kk), k);
                lemma_last_with_keep(debug1, dkey, pdx, k);
                assert(strs(ids@).contains(k) == expired_id(s0.responses, now, k));
            }
            assert forall|c: Seq<char>, k: Seq<char>| #[trigger] self@.reasoning_of(c, k) == match s0.reasoning_of(c, k) {
                Some(e) => if expired_id(s0.responses, now, e.response_id) { None } else { Some(e) },
                None => None,
            } by {
                lemma_last_with_keep(s0.reasoning, |e: ReasoningV| reasoning_key(e), pe, (c, k));
                if let Some(e) = s0.reasoning_of(c, k) {
                    assert(strs(ids@).contains(e.response_id) == expired_id(s0.responses, now, e.response_id));
                }
            }
            assert forall|i: int, j: int| 0 <= i < self@.responses.len() && 0 <= j < self@.responses[i].refs.len() implies
                (#[trigger] blob_of(self@.blobs, self@.responses[i].refs[j])) is Some by {
                assert(self@.responses[i] == responses1[i]);
            }
            assert(debug1 =~= s0.debug.filter(|d: (DebugArtifactV, i64)| !expired_id(s0.responses, now, debug_id(d)))) by {
                assert(pdi =~= (|d: (DebugArtifactV, i64)| !expired_id(s0.responses, now, debug_id(d))));
            }
        }
        let removed_debug = before_debug - self.debug_artifacts.len();
        proof {
            reveal(Seq::filter);
            s0.debug.lemma_filter_len(|d: (DebugArtifactV, i64)| !strs(ids@).contains(debug_id(d)));
        }
        expired_count + removed_debug
    }
}

impl MemoryStore {
    /// Removes what has expired by now; see `cleanup_expired_at`.
    pub fn cleanup_expired(&mut self) -> (r: Result<usize, StoreError>)
        requires
            old(self)@.wf(),
            old(self)@.responses.len() + old(self)@.debug.len() <= usize::MAX,
        ensures
            final(self)@.wf(),
            r is Ok ==> exists|now: i64| #[trigger] cleaned_at(old(self)@, final(self)@, now),
            r matches Err(e) ==> e is ClockBeforeEpoch && final(self)@ == old(self)@,
    {
        let now = now_unix_seconds()?;
        let ghost s0 = self@;
        let n = self.cleanup_expired_at(now);
        assert(cleaned_at(s0, self@, now));
        Ok(n)
    }
}

} // verus!
