//! Chat Completions messages as the shim relays them to chat-style upstreams,
//! and the reasoning bookkeeping around them: DeepSeek thinking defaults, the
//! tool calls whose reasoning must be recovered, and the recovery itself.
use vstd::prelude::*;
use crate::json::{JsonValue, JsonView, members_view, values_view, push_member, push_value, object_of, array_of, string_value};
use crate::config::ReasoningSettings;
use crate::profile::ReasoningPolicy;
use crate::text::{str_eq, owned, seq_lt, str_less, lemma_seq_lt_trichotomy, lemma_seq_lt_transitive, lemma_seq_lt_irreflexive};

verus! {

/// A part of a chat message's content.
#[derive(Debug)]
pub enum ChatContentPart {
    Text { text: String },
    ImageUrl { url: String },
}

/// The content of a chat message: plain text or a list of parts.
#[derive(Debug)]
pub enum ChatContent {
    Text(String),
    Parts(Vec<ChatContentPart>),
}

/// The function a tool call invokes.
#[derive(Debug)]
pub struct ChatFunctionCall {
    pub name: Option<String>,
    pub arguments: String,
}

/// A tool call made by the assistant.
#[derive(Debug)]
pub struct ChatToolCall {
    pub id: String,
    pub call_type: String,
    pub function: ChatFunctionCall,
}

/// A message of a chat conversation.
#[derive(Debug)]
pub enum ChatMessage {
    System { content: ChatContent, name: Option<String> },
    User { content: ChatContent, name: Option<String> },
    Assistant {
        content: Option<ChatContent>,
        name: Option<String>,
        tool_calls: Option<Vec<ChatToolCall>>,
        reasoning_content: Option<String>,
    },
    Tool { content: ChatContent, tool_call_id: String },
}

/// DeepSeek's `thinking` switch.
#[derive(Debug)]
pub struct ThinkingConfig {
    pub thinking_type: String,
}

/// The parts of a chat request that the reasoning defaults read and fill.
#[derive(Debug)]
pub struct ChatCompletionRequest {
    pub model: String,
    pub messages: Vec<ChatMessage>,
    pub stream: Option<bool>,
    pub reasoning_effort: Option<String>,
    pub thinking: Option<ThinkingConfig>,
}

// ---------------------------------------------------------------------------
// Views.

pub enum ChatContentPartV {
    Text(Seq<char>),
    ImageUrl(Seq<char>),
}

pub enum ChatContentV {
    Text(Seq<char>),
    Parts(Seq<ChatContentPartV>),
}

pub struct ChatToolCallV {
    pub id: Seq<char>,
    pub call_type: Seq<char>,
    pub name: Option<Seq<char>>,
    pub arguments: Seq<char>,
}

/// The mathematical content of a chat message.
pub enum ChatMessageV {
    System { content: ChatContentV, name: Option<Seq<char>> },
    User { content: ChatContentV, name: Option<Seq<char>> },
    Assistant {
        content: Option<ChatContentV>,
        name: Option<Seq<char>>,
        tool_calls: Option<Seq<ChatToolCallV>>,
        reasoning_content: Option<Seq<char>>,
    },
    Tool { content: ChatContentV, tool_call_id: Seq<char> },
}

pub open spec fn ostr(o: Option<String>) -> Option<Seq<char>> {
    match o {
        Some(s) => Some(s@),
        None => None,
    }
}

impl View for ChatContentPart {
    type V = ChatContentPartV;

    open spec fn view(&self) -> ChatContentPartV {
        match self {
            ChatContentPart::Text { text } => ChatContentPartV::Text(text@),
            ChatContentPart::ImageUrl { url } => ChatContentPartV::ImageUrl(url@),
        }
    }
}

impl View for ChatContent {
    type V = ChatContentV;

    open spec fn view(&self) -> ChatContentV {
        match self {
            ChatContent::Text(s) => ChatContentV::Text(s@),
            ChatContent::Parts(parts) => ChatContentV::Parts(Seq::new(parts@.len(), |i: int| parts@[i]@)),
        }
    }
}

impl View for ChatToolCall {
    type V = ChatToolCallV;

    open spec fn view(&self) -> ChatToolCallV {
        ChatToolCallV { id: self.id@, call_type: self.call_type@, name: ostr(self.function.name), arguments: self.function.arguments@ }
    }
}

pub open spec fn tool_calls_view(tcs: Seq<ChatToolCall>) -> Seq<ChatToolCallV> {
    Seq::new(tcs.len(), |i: int| tcs[i]@)
}

impl View for ChatMessage {
    type V = ChatMessageV;

    open spec fn view(&self) -> ChatMessageV {
        match self {
            ChatMessage::System { content, name } => ChatMessageV::System { content: content@, name: ostr(*name) },
            ChatMessage::User { content, name } => ChatMessageV::User { content: content@, name: ostr(*name) },
            ChatMessage::Assistant { content, name, tool_calls, reasoning_content } => ChatMessageV::Assistant {
                content: match content { Some(c) => Some(c@), None => None },
                name: ostr(*name),
                tool_calls: match tool_calls { Some(t) => Some(tool_calls_view(t@)), None => None },
                reasoning_content: ostr(*reasoning_content),
            },
            ChatMessage::Tool { content, tool_call_id } => ChatMessageV::Tool { content: content@, tool_call_id: tool_call_id@ },
        }
    }
}

pub open spec fn messages_view(ms: Seq<ChatMessage>) -> Seq<ChatMessageV> {
    Seq::new(ms.len(), |i: int| ms[i]@)
}

pub open spec fn part_text_view(p: ChatContentPart) -> Option<Seq<char>> {
    match p {
        ChatContentPart::Text { text } => Some(text@),
        ChatContentPart::ImageUrl { .. } => None,
    }
}

/// The text of parts: the text parts joined, other parts skipped.
pub open spec fn parts_text(parts: Seq<ChatContentPart>) -> Seq<char>
    decreases parts.len(),
{
    if parts.len() == 0 {
        Seq::empty()
    } else {
        parts_text(parts.drop_last()) + match part_text_view(parts.last()) {
            Some(t) => t,
            None => Seq::empty(),
        }
    }
}

/// The text of a message's content.
pub open spec fn content_text(c: ChatContent) -> Seq<char> {
    match c {
        ChatContent::Text(s) => s@,
        ChatContent::Parts(parts) => parts_text(parts@),
    }
}

/// The text of a message's content.
pub fn content_to_string(content: &ChatContent) -> (r: String)
    ensures
        r@ == content_text(*content),
{
    match content {
        ChatContent::Text(s) => s.clone(),
        ChatContent::Parts(parts) => {
            let mut out = String::new();
            let mut i: usize = 0;
            while i < parts.len()
                invariant
                    i <= parts@.len(),
                    out@ == parts_text(parts@.take(i as int)),
                decreases parts@.len() - i,
            {
                assert(parts@.take(i + 1).drop_last() =~= parts@.take(i as int));
                match &parts[i] {
                    ChatContentPart::Text { text } => out.append(text.as_str()),
                    ChatContentPart::ImageUrl { .. } => {}
                }
                i = i + 1;
            }
            assert(parts@.take(parts@.len() as int) =~= parts@);
            out
        }
    }
}

/// The text of optional content; none is empty.
pub open spec fn opt_content_text(c: Option<ChatContent>) -> Seq<char> {
    match c {
        Some(c) => content_text(c),
        None => Seq::empty(),
    }
}

pub open spec fn jstr(s: Seq<char>) -> JsonView {
    JsonView::Str(s)
}

/// A one-part content array of the given part type and text.
pub open spec fn text_part_array(part_type: Seq<char>, text: Seq<char>) -> JsonView {
    JsonView::Array(seq![JsonView::Object(seq![("type"@, jstr(part_type)), ("text"@, jstr(text))])])
}

/// The Responses input item that replays a chat message: user and system
/// messages become user and developer messages, assistant messages output
/// text, and tool results function call outputs.
pub open spec fn responses_input_of(m: ChatMessage) -> JsonView {
    match m {
        ChatMessage::User { content, .. } => JsonView::Object(seq![
            ("type"@, jstr("message"@)),
            ("role"@, jstr("user"@)),
            ("content"@, text_part_array("input_text"@, content_text(content))),
        ]),
        ChatMessage::Assistant { content, .. } => JsonView::Object(seq![
            ("type"@, jstr("message"@)),
            ("role"@, jstr("assistant"@)),
            ("content"@, text_part_array("output_text"@, opt_content_text(content))),
        ]),
        ChatMessage::System { content, .. } => JsonView::Object(seq![
            ("type"@, jstr("message"@)),
            ("role"@, jstr("developer"@)),
            ("content"@, text_part_array("input_text"@, content_text(content))),
        ]),
        ChatMessage::Tool { content, tool_call_id } => JsonView::Object(seq![
            ("type"@, jstr("function_call_output"@)),
            ("call_id"@, jstr(tool_call_id@)),
            ("output"@, jstr(content_text(content))),
        ]),
    }
}

fn text_part_array_exec(part_type: &str, text: String) -> (r: JsonValue)
    ensures
        r@ == text_part_array(part_type@, text@),
{
    let ghost tv = text@;
    let mut fields: Vec<(String, JsonValue)> = Vec::new();
    push_member(&mut fields, "type", string_value(part_type));
    push_member(&mut fields, "text", JsonValue::Str(text));
    let mut items: Vec<JsonValue> = Vec::new();
    push_value(&mut items, object_of(fields));
    let r = array_of(items);
    assert(members_view(fields@) =~= seq![("type"@, jstr(part_type@)), ("text"@, jstr(tv))]);
    assert(values_view(items@) =~= seq![JsonView::Object(seq![("type"@, jstr(part_type@)), ("text"@, jstr(tv))])]);
    r
}

fn message_object(a: (&str, &str), b: (&str, &str), content: JsonValue) -> (r: JsonValue)
    ensures
        r@ == JsonView::Object(seq![(a.0@, jstr(a.1@)), (b.0@, jstr(b.1@)), ("content"@, content@)]),
{
    let ghost cv = content@;
    let mut fields: Vec<(String, JsonValue)> = Vec::new();
    push_member(&mut fields, a.0, string_value(a.1));
    push_member(&mut fields, b.0, string_value(b.1));
    push_member(&mut fields, "content", content);
    assert(members_view(fields@) =~= seq![(a.0@, jstr(a.1@)), (b.0@, jstr(b.1@)), ("content"@, cv)]);
    object_of(fields)
}

/// The Responses input item that replays a chat message.
pub fn chat_message_to_responses_input(msg: &ChatMessage) -> (r: JsonValue)
    ensures
        r@ == responses_input_of(*msg),
{
    match msg {
        ChatMessage::User { content, .. } => {
            let text = content_to_string(content);
            let r = message_object(("type", "message"), ("role", "user"), text_part_array_exec("input_text", text));
            assert(r@ == responses_input_of(*msg));
            r
        }
        ChatMessage::Assistant { content, .. } => {
            let text = match content {
                Some(c) => content_to_string(c),
                None => String::new(),
            };
            assert(text@ == opt_content_text(*content));
            let r = message_object(("type", "message"), ("role", "assistant"), text_part_array_exec("output_text", text));
            assert(r@ == responses_input_of(*msg));
            r
        }
        ChatMessage::System { content, .. } => {
            let text = content_to_string(content);
            let r = message_object(("type", "message"), ("role", "developer"), text_part_array_exec("input_text", text));
            assert(r@ == responses_input_of(*msg));
            r
        }
        ChatMessage::Tool { content, tool_call_id } => {
            let output = content_to_string(content);
            let ghost ov = output@;
            let mut fields: Vec<(String, JsonValue)> = Vec::new();
            push_member(&mut fields, "type", string_value("function_call_output"));
            push_member(&mut fields, "call_id", string_value(tool_call_id.as_str()));
            push_member(&mut fields, "output", JsonValue::Str(output));
            assert(members_view(fields@) =~= responses_input_of(*msg)->Object_0);
            let r = object_of(fields);
            assert(r@ == responses_input_of(*msg));
            r
        }
    }
}

// ---------------------------------------------------------------------------
// DeepSeek reasoning defaults.

/// DeepSeek's effort level for a configured effort: every level up to `high`
/// is `high`, `xhigh` is `max`, anything else is passed through.
pub open spec fn deepseek_effort(effort: Seq<char>) -> Seq<char> {
    if effort == "minimal"@ || effort == "low"@ || effort == "medium"@ || effort == "high"@ {
        "high"@
    } else if effort == "xhigh"@ {
        "max"@
    } else {
        effort
    }
}

/// Maps a configured reasoning effort to DeepSeek's levels.
pub fn map_deepseek_effort(effort: &str) -> (r: String)
    ensures
        r@ == deepseek_effort(effort@),
{
    if str_eq(effort, "minimal") || str_eq(effort, "low") || str_eq(effort, "medium") || str_eq(effort, "high") {
        owned("high")
    } else if str_eq(effort, "xhigh") {
        owned("max")
    } else {
        owned(effort)
    }
}

pub open spec fn thinking_view(t: Option<ThinkingConfig>) -> Option<Seq<char>> {
    match t {
        Some(c) => Some(c.thinking_type@),
        None => None,
    }
}

pub open spec fn effort_view(e: Option<String>) -> Option<Seq<char>> {
    match e {
        Some(s) => Some(s@),
        None => None,
    }
}

/// Fills DeepSeek's thinking switch and effort from the configured reasoning
/// settings, for a DeepSeek-style provider whose request does not set
/// thinking itself. An effort already in the request is kept.
pub fn apply_reasoning_config_defaults(
    chat_req: &mut ChatCompletionRequest,
    reasoning: &ReasoningSettings,
    policy: ReasoningPolicy,
)
    ensures
        final(chat_req).model == old(chat_req).model,
        final(chat_req).messages == old(chat_req).messages,
        final(chat_req).stream == old(chat_req).stream,
        (policy != ReasoningPolicy::DeepSeekReasoningContent || old(chat_req).thinking is Some) ==> (
            thinking_view(final(chat_req).thinking) == thinking_view(old(chat_req).thinking)
            && effort_view(final(chat_req).reasoning_effort) == effort_view(old(chat_req).reasoning_effort)),
        (policy == ReasoningPolicy::DeepSeekReasoningContent && old(chat_req).thinking is None) ==> (
            thinking_view(final(chat_req).thinking) == Some(if reasoning.enabled { "enabled"@ } else { "disabled"@ })
            && effort_view(final(chat_req).reasoning_effort) == if reasoning.enabled && old(chat_req).reasoning_effort is None {
                Some(deepseek_effort(reasoning.effort@))
            } else {
                effort_view(old(chat_req).reasoning_effort)
            }),
{
    let deepseek = match policy {
        ReasoningPolicy::DeepSeekReasoningContent => true,
        _ => false,
    };
    if !deepseek || chat_req.thinking.is_some() {
        return;
    }
    if reasoning.enabled {
        chat_req.thinking = Some(ThinkingConfig { thinking_type: owned("enabled") });
        if chat_req.reasoning_effort.is_none() {
            chat_req.reasoning_effort = Some(map_deepseek_effort(reasoning.effort.as_str()));
        }
    } else {
        chat_req.thinking = Some(ThinkingConfig { thinking_type: owned("disabled") });
    }
}

// ---------------------------------------------------------------------------
// Reasoning recovery for tool calls.

/// Whether a message is an assistant turn with tool calls but no reasoning.
pub open spec fn lacks_reasoning(m: ChatMessage) -> bool {
    m matches ChatMessage::Assistant { reasoning_content: None, tool_calls: Some(_), .. }
}

/// The ids of the tool calls of assistant turns that lack reasoning.
pub open spec fn call_ids_lacking_reasoning(ms: Seq<ChatMessage>) -> Set<Seq<char>> {
    Set::new(|id: Seq<char>| exists|i: int, j: int|
        0 <= i < ms.len() && lacks_reasoning(ms[i]) && #[trigger] tool_call_id_at(ms[i], j) == Some(id))
}

/// The id of the `j`-th tool call of a message, if it has one.
pub open spec fn tool_call_id_at(m: ChatMessage, j: int) -> Option<Seq<char>> {
    match m {
        ChatMessage::Assistant { tool_calls: Some(tcs), .. } => if 0 <= j < tcs@.len() { Some(tcs@[j].id@) } else { None },
        _ => None,
    }
}

/// Strictly increasing in code point order: sorted, with no repeats.
pub open spec fn strictly_sorted(v: Seq<Seq<char>>) -> bool {
    forall|i: int, j: int| 0 <= i < j < v.len() ==> seq_lt(#[trigger] v[i], #[trigger] v[j])
}

pub open spec fn str_views(v: Seq<String>) -> Seq<Seq<char>> {
    Seq::new(v.len(), |i: int| v[i]@)
}

/// Inserts `x` into a strictly sorted list, unless it is there already.
fn insert_sorted(v: &mut Vec<String>, x: &String)
    requires
        strictly_sorted(str_views(old(v)@)),
    ensures
        strictly_sorted(str_views(final(v)@)),
        str_views(final(v)@).to_set() == str_views(old(v)@).to_set().insert(x@),
{
    let ghost old_v = str_views(v@);
    let mut p: usize = 0;
    while p < v.len() && str_less(v[p].as_str(), x.as_str())
        invariant
            old_v == str_views(v@),
            p <= v@.len(),
            forall|k: int| 0 <= k < p ==> seq_lt(#[trigger] old_v[k], x@),
        decreases v@.len() - p,
    {
        p = p + 1;
    }
    if p < v.len() && v[p] == *x {
        assert(old_v.to_set() =~= old_v.to_set().insert(x@)) by {
            assert(old_v[p as int] == x@);
        }
        return;
    }
    proof {
        if p < old_v.len() {
            lemma_seq_lt_trichotomy(old_v[p as int], x@);
        }
    }
    v.insert(p, x.clone());
    let ghost nv = str_views(v@);
    assert(nv =~= old_v.insert(p as int, x@));
    assert forall|i: int, j: int| 0 <= i < j < nv.len() implies seq_lt(#[trigger] nv[i], #[trigger] nv[j]) by {
        if j < p {
        } else if j == p {
        } else if i < p {
            assert(nv[j] == old_v[j - 1]);
            if j - 1 > p {
                assert(seq_lt(old_v[p as int], old_v[j - 1]));
                lemma_seq_lt_transitive(x@, old_v[p as int], old_v[j - 1]);
            }
            lemma_seq_lt_transitive(old_v[i], x@, old_v[j - 1]);
        } else if i == p {
            assert(nv[j] == old_v[j - 1]);
            if j - 1 > p {
                assert(seq_lt(old_v[p as int], old_v[j - 1]));
                lemma_seq_lt_transitive(x@, old_v[p as int], old_v[j - 1]);
            }
        } else {
            assert(nv[i] == old_v[i - 1]);
            assert(nv[j] == old_v[j - 1]);
        }
    }
    assert(nv.to_set() =~= old_v.to_set().insert(x@)) by {
        assert forall|y: Seq<char>| nv.to_set().contains(y) <==> old_v.to_set().insert(x@).contains(y) by {
            if nv.to_set().contains(y) {
                let k = choose|k: int| 0 <= k < nv.len() && nv[k] == y;
                if k < p {
                    assert(old_v[k] == y);
                } else if k > p {
                    assert(old_v[k - 1] == y);
                }
            }
            if old_v.to_set().contains(y) {
                let k = choose|k: int| 0 <= k < old_v.len() && old_v[k] == y;
                if k < p {
                    assert(nv[k] == y);
                } else {
                    assert(nv[k + 1] == y);
                }
            }
            if y == x@ {
                assert(nv[p as int] == y);
            }
        }
    }
}

/// The ids of the tool calls whose reasoning has to be recovered, sorted and
/// without repeats.
pub fn missing_reasoning_call_ids(messages: &Vec<ChatMessage>) -> (r: Vec<String>)
    ensures
        strictly_sorted(str_views(r@)),
        str_views(r@).to_set() == call_ids_lacking_reasoning(messages@),
{
    let mut ids: Vec<String> = Vec::new();
    let mut i: usize = 0;
    assert(str_views(ids@).to_set() =~= Set::<Seq<char>>::empty());
    while i < messages.len()
        invariant
            i <= messages@.len(),
            strictly_sorted(str_views(ids@)),
            str_views(ids@).to_set() == call_ids_lacking_reasoning(messages@.take(i as int)),
        decreases messages@.len() - i,
    {
        let ghost before = str_views(ids@).to_set();
        if let ChatMessage::Assistant { reasoning_content: None, tool_calls: Some(tcs), .. } = &messages[i] {
            let mut j: usize = 0;
            while j < tcs.len()
                invariant
                    j <= tcs@.len(),
                    strictly_sorted(str_views(ids@)),
                    str_views(ids@).to_set() == before.union(Set::new(|id: Seq<char>| exists|k: int| 0 <= k < j && tcs@[k].id@ == id)),
                decreases tcs@.len() - j,
            {
                insert_sorted(&mut ids, &tcs[j].id);
                assert(str_views(ids@).to_set() =~= before.union(Set::new(|id: Seq<char>| exists|k: int| 0 <= k < j + 1 && tcs@[k].id@ == id)));
                j = j + 1;
            }
            assert(str_views(ids@).to_set() =~= call_ids_lacking_reasoning(messages@.take(i + 1))) by {
                let ms = messages@.take(i + 1);
                assert forall|id: Seq<char>| call_ids_lacking_reasoning(ms).contains(id) implies str_views(ids@).to_set().contains(id) by {
                    let (a, b) = choose|a: int, b: int| 0 <= a < ms.len() && lacks_reasoning(ms[a]) && #[trigger] tool_call_id_at(ms[a], b) == Some(id);
                    if a < i {
                        assert(messages@.take(i as int)[a] == ms[a]);
                        assert(call_ids_lacking_reasoning(messages@.take(i as int)).contains(id));
                    } else {
                        assert(tcs@[b].id@ == id);
                    }
                }
                assert forall|id: Seq<char>| str_views(ids@).to_set().contains(id) implies call_ids_lacking_reasoning(ms).contains(id) by {
                    if before.contains(id) {
                        let (a, b) = choose|a: int, b: int| 0 <= a < i && lacks_reasoning(messages@.take(i as int)[a]) && #[trigger] tool_call_id_at(messages@.take(i as int)[a], b) == Some(id);
                        assert(ms[a] == messages@.take(i as int)[a]);
                        assert(tool_call_id_at(ms[a], b) == Some(id));
                    } else {
                        let k = choose|k: int| 0 <= k < tcs@.len() && tcs@[k].id@ == id;
                        assert(tool_call_id_at(ms[i as int], k) == Some(id));
                    }
                }
            }
        } else {
            assert(call_ids_lacking_reasoning(messages@.take(i + 1)) =~= call_ids_lacking_reasoning(messages@.take(i as int))) by {
                let ms = messages@.take(i + 1);
                assert forall|id: Seq<char>| call_ids_lacking_reasoning(ms).contains(id) implies call_ids_lacking_reasoning(messages@.take(i as int)).contains(id) by {
                    let (a, b) = choose|a: int, b: int| 0 <= a < ms.len() && lacks_reasoning(ms[a]) && #[trigger] tool_call_id_at(ms[a], b) == Some(id);
                    assert(a != i);
                    assert(messages@.take(i as int)[a] == ms[a]);
                }
                assert forall|id: Seq<char>| call_ids_lacking_reasoning(messages@.take(i as int)).contains(id) implies call_ids_lacking_reasoning(ms).contains(id) by {
                    let (a, b) = choose|a: int, b: int| 0 <= a < i && lacks_reasoning(messages@.take(i as int)[a]) && #[trigger] tool_call_id_at(messages@.take(i as int)[a], b) == Some(id);
                    assert(ms[a] == messages@.take(i as int)[a]);
                    assert(tool_call_id_at(ms[a], b) == Some(id));
                }
            }
        }
        i = i + 1;
    }
    assert(messages@.take(messages@.len() as int) =~= messages@);
    ids
}

/// Whether some assistant turn has tool calls but no reasoning.
pub fn has_turn_lacking_reasoning(messages: &Vec<ChatMessage>) -> (r: bool)
    ensures
        r == exists|i: int| 0 <= i < messages@.len() && lacks_reasoning(#[trigger] messages@[i]),
{
    let mut i: usize = 0;
    while i < messages.len()
        invariant
            i <= messages@.len(),
            forall|k: int| 0 <= k < i ==> !lacks_reasoning(#[trigger] messages@[k]),
        decreases messages@.len() - i,
    {
        if let ChatMessage::Assistant { reasoning_content: None, tool_calls: Some(_), .. } = &messages[i] {
            assert(lacks_reasoning(messages@[i as int]));
            return true;
        }
        i = i + 1;
    }
    false
}

/// The value recorded for `key`: the first entry with that key.
pub open spec fn recorded_value(entries: Seq<(String, String)>, key: Seq<char>) -> Option<String>
    decreases entries.len(),
{
    if entries.len() == 0 {
        None
    } else if entries[0].0@ == key {
        Some(entries[0].1)
    } else {
        recorded_value(entries.drop_first(), key)
    }
}

/// The reasoning recovered for a turn: that of its first tool call with any.
pub open spec fn recovered_for(calls: Seq<ChatToolCall>, entries: Seq<(String, String)>) -> Option<String>
    decreases calls.len(),
{
    if calls.len() == 0 {
        None
    } else {
        match recorded_value(entries, calls[0].id@) {
            Some(v) => Some(v),
            None => recovered_for(calls.drop_first(), entries),
        }
    }
}

/// A message with its reasoning recovered: an assistant turn that lacks
/// reasoning takes the reasoning recovered for its tool calls, if any.
pub open spec fn restored(m: ChatMessage, entries: Seq<(String, String)>) -> ChatMessage {
    match m {
        ChatMessage::Assistant { content, name, tool_calls: Some(tcs), reasoning_content: None } =>
            ChatMessage::Assistant {
                content,
                name,
                tool_calls: Some(tcs),
                reasoning_content: recovered_for(tcs@, entries),
            },
        _ => m,
    }
}

fn recorded_value_exec(entries: &Vec<(String, String)>, key: &String) -> (r: Option<String>)
    ensures
        r == recorded_value(entries@, key@),
{
    let mut i: usize = 0;
    assert(entries@.skip(0) =~= entries@);
    while i < entries.len()
        invariant
            i <= entries@.len(),
            recorded_value(entries@, key@) == recorded_value(entries@.skip(i as int), key@),
        decreases entries@.len() - i,
    {
        assert(entries@.skip(i as int).drop_first() =~= entries@.skip(i + 1));
        if entries[i].0 == *key {
            return Some(entries[i].1.clone());
        }
        i = i + 1;
    }
    None
}

fn recovered_for_exec(calls: &Vec<ChatToolCall>, entries: &Vec<(String, String)>) -> (r: Option<String>)
    ensures
        r == recovered_for(calls@, entries@),
{
    let mut i: usize = 0;
    assert(calls@.skip(0) =~= calls@);
    while i < calls.len()
        invariant
            i <= calls@.len(),
            recovered_for(calls@, entries@) == recovered_for(calls@.skip(i as int), entries@),
        decreases calls@.len() - i,
    {
        assert(calls@.skip(i as int).drop_first() =~= calls@.skip(i + 1));
        match recorded_value_exec(entries, &calls[i].id) {
            Some(v) => {
                return Some(v);
            }
            None => {}
        }
        i = i + 1;
    }
    None
}

fn restored_message(m: ChatMessage, entries: &Vec<(String, String)>) -> (r: ChatMessage)
    ensures
        r == restored(m, entries@),
{
    match m {
        ChatMessage::Assistant { content, name, tool_calls: Some(tcs), reasoning_content: None } => {
            let rc = recovered_for_exec(&tcs, entries);
            ChatMessage::Assistant { content, name, tool_calls: Some(tcs), reasoning_content: rc }
        }
        other => other,
    }
}

/// Fills in the reasoning of every assistant turn that lacks it, from the
/// reasoning recovered for its tool calls (call id, reasoning).
pub fn restore_reasoning(messages: &mut Vec<ChatMessage>, recovered: &Vec<(String, String)>)
    ensures
        final(messages)@.len() == old(messages)@.len(),
        forall|i: int| 0 <= i < old(messages)@.len() ==> (#[trigger] final(messages)@[i]) == restored(old(messages)@[i], recovered@),
{
    let ghost orig = messages@;
    let mut i: usize = 0;
    while i < messages.len()
        invariant
            messages@.len() == orig.len(),
            i <= orig.len(),
            forall|k: int| 0 <= k < i ==> (#[trigger] messages@[k]) == restored(orig[k], recovered@),
            forall|k: int| i <= k < orig.len() ==> (#[trigger] messages@[k]) == orig[k],
        decreases orig.len() - i,
    {
        let m = messages.remove(i);
        let r = restored_message(m, recovered);
        messages.insert(i, r);
        i = i + 1;
    }
}

// ---------------------------------------------------------------------------
// The JSON form of a message.

pub open spec fn opt_member(key: Seq<char>, v: Option<JsonView>) -> Seq<(Seq<char>, JsonView)> {
    match v {
        Some(x) => seq![(key, x)],
        None => Seq::empty(),
    }
}

pub open spec fn opt_seq_json(o: Option<Seq<char>>) -> Option<JsonView> {
    match o {
        Some(s) => Some(jstr(s)),
        None => None,
    }
}

pub open spec fn part_json(p: ChatContentPartV) -> JsonView {
    match p {
        ChatContentPartV::Text(text) => JsonView::Object(seq![("type"@, jstr("text"@)), ("text"@, jstr(text))]),
        ChatContentPartV::ImageUrl(url) => JsonView::Object(seq![
            ("type"@, jstr("image_url"@)),
            ("image_url"@, JsonView::Object(seq![("url"@, jstr(url))])),
        ]),
    }
}

/// The JSON form of message content: a string, or an array of parts.
pub open spec fn content_json(c: ChatContentV) -> JsonView {
    match c {
        ChatContentV::Text(s) => jstr(s),
        ChatContentV::Parts(parts) => JsonView::Array(Seq::new(parts.len(), |i: int| part_json(parts[i]))),
    }
}

pub open spec fn tool_call_json(tc: ChatToolCallV) -> JsonView {
    JsonView::Object(seq![
        ("id"@, jstr(tc.id)),
        ("type"@, jstr(tc.call_type)),
        ("function"@, JsonView::Object(opt_member("name"@, opt_seq_json(tc.name)) + seq![("arguments"@, jstr(tc.arguments))])),
    ])
}

pub open spec fn tool_calls_json(tcs: Seq<ChatToolCallV>) -> JsonView {
    JsonView::Array(Seq::new(tcs.len(), |i: int| tool_call_json(tcs[i])))
}

/// The JSON form of a message: its role, then its fields, absent ones left out.
pub open spec fn message_json(m: ChatMessageV) -> JsonView {
    match m {
        ChatMessageV::System { content, name } => JsonView::Object(
            seq![("role"@, jstr("system"@)), ("content"@, content_json(content))] + opt_member("name"@, opt_seq_json(name))),
        ChatMessageV::User { content, name } => JsonView::Object(
            seq![("role"@, jstr("user"@)), ("content"@, content_json(content))] + opt_member("name"@, opt_seq_json(name))),
        ChatMessageV::Assistant { content, name, tool_calls, reasoning_content } => JsonView::Object(
            seq![("role"@, jstr("assistant"@))]
                + opt_member("content"@, match content { Some(c) => Some(content_json(c)), None => None })
                + opt_member("name"@, opt_seq_json(name))
                + opt_member("tool_calls"@, match tool_calls { Some(t) => Some(tool_calls_json(t)), None => None })
                + opt_member("reasoning_content"@, opt_seq_json(reasoning_content))),
        ChatMessageV::Tool { content, tool_call_id } => JsonView::Object(
            seq![("role"@, jstr("tool"@)), ("content"@, content_json(content)), ("tool_call_id"@, jstr(tool_call_id))]),
    }
}

fn push_opt_str_member(fields: &mut Vec<(String, JsonValue)>, key: &str, v: &Option<String>)
    ensures
        members_view(final(fields)@) == members_view(old(fields)@) + opt_member(key@, opt_seq_json(ostr(*v))),
{
    match v {
        Some(s) => push_member(fields, key, string_value(s.as_str())),
        None => {}
    }
    assert(members_view(fields@) =~= members_view(old(fields)@) + opt_member(key@, opt_seq_json(ostr(*v))));
}

fn part_json_exec(p: &ChatContentPart) -> (r: JsonValue)
    ensures
        r@ == part_json(p@),
{
    let mut fields: Vec<(String, JsonValue)> = Vec::new();
    match p {
        ChatContentPart::Text { text } => {
            push_member(&mut fields, "type", string_value("text"));
            push_member(&mut fields, "text", string_value(text.as_str()));
        }
        ChatContentPart::ImageUrl { url } => {
            let mut inner: Vec<(String, JsonValue)> = Vec::new();
            push_member(&mut inner, "url", string_value(url.as_str()));
            assert(members_view(inner@) =~= seq![("url"@, jstr(url@))]);
            push_member(&mut fields, "type", string_value("image_url"));
            push_member(&mut fields, "image_url", object_of(inner));
        }
    }
    assert(members_view(fields@) =~= part_json(p@)->Object_0);
    object_of(fields)
}

/// The JSON form of message content.
pub fn content_json_exec(c: &ChatContent) -> (r: JsonValue)
    ensures
        r@ == content_json(c@),
{
    match c {
        ChatContent::Text(s) => string_value(s.as_str()),
        ChatContent::Parts(parts) => {
            let mut items: Vec<JsonValue> = Vec::new();
            let mut i: usize = 0;
            while i < parts.len()
                invariant
                    i <= parts@.len(),
                    values_view(items@) =~= Seq::new(i as nat, |k: int| part_json(parts@[k]@)),
                decreases parts@.len() - i,
            {
                push_value(&mut items, part_json_exec(&parts[i]));
                i = i + 1;
            }
            assert(values_view(items@) =~= content_json(c@)->Array_0);
            array_of(items)
        }
    }
}

fn tool_call_json_exec(tc: &ChatToolCall) -> (r: JsonValue)
    ensures
        r@ == tool_call_json(tc@),
{
    let mut func: Vec<(String, JsonValue)> = Vec::new();
    push_opt_str_member(&mut func, "name", &tc.function.name);
    push_member(&mut func, "arguments", string_value(tc.function.arguments.as_str()));
    assert(members_view(func@) =~= opt_member("name"@, opt_seq_json(ostr(tc.function.name))) + seq![("arguments"@, jstr(tc.function.arguments@))]);
    let mut fields: Vec<(String, JsonValue)> = Vec::new();
    push_member(&mut fields, "id", string_value(tc.id.as_str()));
    push_member(&mut fields, "type", string_value(tc.call_type.as_str()));
    push_member(&mut fields, "function", object_of(func));
    assert(members_view(fields@) =~= tool_call_json(tc@)->Object_0);
    object_of(fields)
}

fn tool_calls_json_exec(tcs: &Vec<ChatToolCall>) -> (r: JsonValue)
    ensures
        r@ == tool_calls_json(tool_calls_view(tcs@)),
{
    let mut items: Vec<JsonValue> = Vec::new();
    let mut i: usize = 0;
    while i < tcs.len()
        invariant
            i <= tcs@.len(),
            values_view(items@) =~= Seq::new(i as nat, |k: int| tool_call_json(tcs@[k]@)),
        decreases tcs@.len() - i,
    {
        push_value(&mut items, tool_call_json_exec(&tcs[i]));
        i = i + 1;
    }
    assert(values_view(items@) =~= tool_calls_json(tool_calls_view(tcs@))->Array_0);
    array_of(items)
}

/// The JSON form of a message.
pub fn message_json_exec(m: &ChatMessage) -> (r: JsonValue)
    ensures
        r@ == message_json(m@),
{
    let mut fields: Vec<(String, JsonValue)> = Vec::new();
    match m {
        ChatMessage::System { content, name } => {
            push_member(&mut fields, "role", string_value("system"));
            push_member(&mut fields, "content", content_json_exec(content));
            push_opt_str_member(&mut fields, "name", name);
        }
        ChatMessage::User { content, name } => {
            push_member(&mut fields, "role", string_value("user"));
            push_member(&mut fields, "content", content_json_exec(content));
            push_opt_str_member(&mut fields, "name", name);
        }
        ChatMessage::Assistant { content, name, tool_calls, reasoning_content } => {
            push_member(&mut fields, "role", string_value("assistant"));
            let ghost f1 = members_view(fields@);
            match content {
                Some(c) => push_member(&mut fields, "content", content_json_exec(c)),
                None => {}
            }
            assert(members_view(fields@) =~= f1 + opt_member("content"@, match *content { Some(c) => Some(content_json(c@)), None => None }));
            push_opt_str_member(&mut fields, "name", name);
            let ghost f3 = members_view(fields@);
            match tool_calls {
                Some(t) => push_member(&mut fields, "tool_calls", tool_calls_json_exec(t)),
                None => {}
            }
            assert(members_view(fields@) =~= f3 + opt_member("tool_calls"@, match *tool_calls { Some(t) => Some(tool_calls_json(tool_calls_view(t@))), None => None }));
            push_opt_str_member(&mut fields, "reasoning_content", reasoning_content);
        }
        ChatMessage::Tool { content, tool_call_id } => {
            push_member(&mut fields, "role", string_value("tool"));
            push_member(&mut fields, "content", content_json_exec(content));
            push_member(&mut fields, "tool_call_id", string_value(tool_call_id.as_str()));
        }
    }
    assert(members_view(fields@) =~= message_json(m@)->Object_0);
    object_of(fields)
}

/// The value recorded for `key` is that of the first entry with the key, and
/// there is none when no entry has it.
pub proof fn law_recorded_value_is_first_entry(entries: Seq<(String, String)>, key: Seq<char>)
    ensures
        (forall|i: int| 0 <= i < entries.len() ==> (#[trigger] entries[i]).0@ != key) ==> recorded_value(entries, key) is None,
        forall|i: int| 0 <= i < entries.len() && (#[trigger] entries[i]).0@ == key
            && (forall|j: int| 0 <= j < i ==> (#[trigger] entries[j]).0@ != key)
            ==> recorded_value(entries, key) == Some(entries[i].1),
    decreases entries.len(),
{
    if entries.len() > 0 {
        law_recorded_value_is_first_entry(entries.drop_first(), key);
        assert forall|i: int| 0 <= i < entries.len() && (#[trigger] entries[i]).0@ == key
            && (forall|j: int| 0 <= j < i ==> (#[trigger] entries[j]).0@ != key)
            implies recorded_value(entries, key) == Some(entries[i].1) by {
            if i > 0 {
                assert(entries[0].0@ != key);
                assert(entries.drop_first()[i - 1] == entries[i]);
                assert forall|j: int| 0 <= j < i - 1 implies (#[trigger] entries.drop_first()[j]).0@ != key by {
                    assert(entries.drop_first()[j] == entries[j + 1]);
                }
            }
        }
        if forall|i: int| 0 <= i < entries.len() ==> (#[trigger] entries[i]).0@ != key {
            assert(entries[0].0@ != key);
            assert forall|i: int| 0 <= i < entries.drop_first().len() implies (#[trigger] entries.drop_first()[i]).0@ != key by {
                assert(entries.drop_first()[i] == entries[i + 1]);
            }
        }
    }
}

proof fn lemma_recovered_first(calls: Seq<ChatToolCall>, entries: Seq<(String, String)>)
    ensures
        (forall|j: int| 0 <= j < calls.len() ==> recorded_value(entries, (#[trigger] calls[j]).id@) is None)
            ==> recovered_for(calls, entries) is None,
        forall|j: int| 0 <= j < calls.len() && recorded_value(entries, (#[trigger] calls[j]).id@) is Some
            && (forall|k: int| 0 <= k < j ==> recorded_value(entries, (#[trigger] calls[k]).id@) is None)
            ==> recovered_for(calls, entries) == recorded_value(entries, calls[j].id@),
    decreases calls.len(),
{
    if calls.len() > 0 {
        let rest = calls.drop_first();
        lemma_recovered_first(rest, entries);
        assert forall|j: int| 0 <= j < calls.len() && recorded_value(entries, (#[trigger] calls[j]).id@) is Some
            && (forall|k: int| 0 <= k < j ==> recorded_value(entries, (#[trigger] calls[k]).id@) is None)
            implies recovered_for(calls, entries) == recorded_value(entries, calls[j].id@) by {
            if j > 0 {
                assert(recorded_value(entries, calls[0].id@) is None);
                assert(rest[j - 1] == calls[j]);
                assert forall|k: int| 0 <= k < j - 1 implies recorded_value(entries, (#[trigger] rest[k]).id@) is None by {
                    assert(rest[k] == calls[k + 1]);
                }
            }
        }
        if forall|j: int| 0 <= j < calls.len() ==> recorded_value(entries, (#[trigger] calls[j]).id@) is None {
            assert(recorded_value(entries, calls[0].id@) is None);
            assert forall|j: int| 0 <= j < rest.len() implies recorded_value(entries, (#[trigger] rest[j]).id@) is None by {
                assert(rest[j] == calls[j + 1]);
            }
        }
    }
}

/// Recovery fills in every assistant turn that has tool calls and no
/// reasoning, whatever its content: the turn keeps its content, name and tool
/// calls and takes the reasoning recorded for its first tool call that has
/// any (none when no call has). Every other message is left as it is.
pub proof fn law_restore_fills_tool_turns(m: ChatMessage, entries: Seq<(String, String)>)
    ensures
        m matches ChatMessage::Assistant { content, name, tool_calls: Some(tcs), reasoning_content: None } ==> {
            &&& restored(m, entries) matches ChatMessage::Assistant { content: c2, name: n2, tool_calls: Some(t2), reasoning_content: r2 }
            &&& c2 == content
            &&& n2 == name
            &&& t2 == tcs
            &&& (forall|j: int| 0 <= j < tcs@.len() ==> recorded_value(entries, (#[trigger] tcs@[j]).id@) is None) ==> r2 is None
            &&& forall|j: int| 0 <= j < tcs@.len() && recorded_value(entries, (#[trigger] tcs@[j]).id@) is Some
                && (forall|k: int| 0 <= k < j ==> recorded_value(entries, (#[trigger] tcs@[k]).id@) is None)
                ==> r2 == recorded_value(entries, tcs@[j].id@)
        },
        !(m matches ChatMessage::Assistant { tool_calls: Some(_), reasoning_content: None, .. }) ==> restored(m, entries) == m,
{
    if let ChatMessage::Assistant { tool_calls: Some(tcs), reasoning_content: None, .. } = m {
        lemma_recovered_first(tcs@, entries);
    }
}

proof fn lemma_lookup_concat(a: Seq<(Seq<char>, JsonView)>, b: Seq<(Seq<char>, JsonView)>, k: Seq<char>)
    ensures
        crate::json::lookup(a + b, k) == match crate::json::lookup(a, k) {
            Some(v) => Some(v),
            None => crate::json::lookup(b, k),
        },
    decreases a.len(),
{
    if a.len() == 0 {
        assert(a + b =~= b);
    } else {
        assert((a + b)[0] == a[0]);
        assert((a + b).drop_first() =~= a.drop_first() + b);
        lemma_lookup_concat(a.drop_first(), b, k);
    }
}

proof fn lemma_lookup_opt_member(k: Seq<char>, v: Option<JsonView>, key: Seq<char>)
    ensures
        crate::json::lookup(opt_member(k, v), key) == if k == key { v } else { None },
{
    reveal_with_fuel(crate::json::lookup, 2);
    if v is Some {
        assert(opt_member(k, v).drop_first().len() == 0);
    }
}

proof fn lemma_part_json_injective(p: ChatContentPartV, q: ChatContentPartV)
    requires
        part_json(p) == part_json(q),
    ensures
        p == q,
{
    reveal_strlit("text");
    reveal_strlit("image_url");
    let fp = part_json(p)->Object_0;
    let fq = part_json(q)->Object_0;
    assert(fp[1] == fq[1]);
    match (p, q) {
        (ChatContentPartV::ImageUrl(u), ChatContentPartV::ImageUrl(w)) => {
            let ip = fp[1].1->Object_0;
            let iq = fq[1].1->Object_0;
            assert(ip[0] == iq[0]);
        },
        _ => {},
    }
}

proof fn lemma_content_json_injective(c: ChatContentV, d: ChatContentV)
    requires
        content_json(c) == content_json(d),
    ensures
        c == d,
{
    match (c, d) {
        (ChatContentV::Parts(ps), ChatContentV::Parts(qs)) => {
            let a = content_json(c)->Array_0;
            let b = content_json(d)->Array_0;
            assert(a.len() == ps.len() && b.len() == qs.len());
            assert forall|i: int| 0 <= i < ps.len() implies ps[i] == qs[i] by {
                assert(a[i] == b[i]);
                lemma_part_json_injective(ps[i], qs[i]);
            }
            assert(ps =~= qs);
        },
        _ => {},
    }
}

proof fn lemma_tool_call_json_injective(a: ChatToolCallV, b: ChatToolCallV)
    requires
        tool_call_json(a) == tool_call_json(b),
    ensures
        a == b,
{
    let fa = tool_call_json(a)->Object_0;
    let fb = tool_call_json(b)->Object_0;
    assert(fa[0] == fb[0]);
    assert(fa[1] == fb[1]);
    assert(fa[2] == fb[2]);
    let ga = fa[2].1->Object_0;
    let gb = fb[2].1->Object_0;
    assert(ga.len() == gb.len());
    assert(ga.last() == gb.last());
    if a.name is Some {
        assert(ga[0] == gb[0]);
    }
}

proof fn lemma_tool_calls_json_injective(a: Seq<ChatToolCallV>, b: Seq<ChatToolCallV>)
    requires
        tool_calls_json(a) == tool_calls_json(b),
    ensures
        a == b,
{
    let ja = tool_calls_json(a)->Array_0;
    let jb = tool_calls_json(b)->Array_0;
    assert(ja.len() == a.len() && jb.len() == b.len());
    assert forall|i: int| 0 <= i < a.len() implies a[i] == b[i] by {
        assert(ja[i] == jb[i]);
        lemma_tool_call_json_injective(a[i], b[i]);
    }
    assert(a =~= b);
}

/// The name a message's role is written under.
pub open spec fn role_name(m: ChatMessageV) -> Seq<char> {
    match m {
        ChatMessageV::System { .. } => "system"@,
        ChatMessageV::User { .. } => "user"@,
        ChatMessageV::Assistant { .. } => "assistant"@,
        ChatMessageV::Tool { .. } => "tool"@,
    }
}

proof fn lemma_message_members(m: ChatMessageV)
    ensures
        message_json(m) is Object,
        crate::json::lookup(message_json(m)->Object_0, "role"@) == Some(jstr(role_name(m))),
        match m {
            ChatMessageV::System { content, name } => {
                &&& crate::json::lookup(message_json(m)->Object_0, "content"@) == Some(content_json(content))
                &&& crate::json::lookup(message_json(m)->Object_0, "name"@) == opt_seq_json(name)
            },
            ChatMessageV::User { content, name } => {
                &&& crate::json::lookup(message_json(m)->Object_0, "content"@) == Some(content_json(content))
                &&& crate::json::lookup(message_json(m)->Object_0, "name"@) == opt_seq_json(name)
            },
            ChatMessageV::Assistant { content, name, tool_calls, reasoning_content } => {
                &&& crate::json::lookup(message_json(m)->Object_0, "content"@)
                    == match content { Some(c) => Some(content_json(c)), None => None }
                &&& crate::json::lookup(message_json(m)->Object_0, "name"@) == opt_seq_json(name)
                &&& crate::json::lookup(message_json(m)->Object_0, "tool_calls"@)
                    == match tool_calls { Some(t) => Some(tool_calls_json(t)), None => None }
                &&& crate::json::lookup(message_json(m)->Object_0, "reasoning_content"@) == opt_seq_json(reasoning_content)
            },
            ChatMessageV::Tool { content, tool_call_id } => {
                &&& crate::json::lookup(message_json(m)->Object_0, "content"@) == Some(content_json(content))
                &&& crate::json::lookup(message_json(m)->Object_0, "tool_call_id"@) == Some(jstr(tool_call_id))
            },
        },
{
    reveal_strlit("role");
    reveal_strlit("content");
    reveal_strlit("name");
    reveal_strlit("tool_calls");
    reveal_strlit("reasoning_content");
    reveal_strlit("tool_call_id");
    let f = message_json(m)->Object_0;
    lemma_member_keys_distinct();
    match m {
        ChatMessageV::System { content, name } => {
            let a = ("role"@, jstr("system"@));
            let b = ("content"@, content_json(content));
            let om = opt_member("name"@, opt_seq_json(name));
            assert(f =~= seq![a] + (seq![b] + om));
            lemma_three_lookups(a, b, om, "role"@);
            lemma_three_lookups(a, b, om, "content"@);
            lemma_three_lookups(a, b, om, "name"@);
            lemma_lookup_opt_member("name"@, opt_seq_json(name), "name"@);
            assert(crate::json::lookup(f, "role"@) == Some(jstr("system"@)));
            assert(crate::json::lookup(f, "content"@) == Some(content_json(content)));
            assert(crate::json::lookup(f, "name"@) == opt_seq_json(name));
        },
        ChatMessageV::User { content, name } => {
            let a = ("role"@, jstr("user"@));
            let b = ("content"@, content_json(content));
            let om = opt_member("name"@, opt_seq_json(name));
            assert(f =~= seq![a] + (seq![b] + om));
            lemma_three_lookups(a, b, om, "role"@);
            lemma_three_lookups(a, b, om, "content"@);
            lemma_three_lookups(a, b, om, "name"@);
            lemma_lookup_opt_member("name"@, opt_seq_json(name), "name"@);
        },
        ChatMessageV::Assistant { content, name, tool_calls, reasoning_content } => {
            lemma_assistant_lookup(m, "role"@);
            lemma_assistant_lookup(m, "content"@);
            lemma_assistant_lookup(m, "name"@);
            lemma_assistant_lookup(m, "tool_calls"@);
            lemma_assistant_lookup(m, "reasoning_content"@);
        },
        ChatMessageV::Tool { content, tool_call_id } => {
            let a = ("role"@, jstr("tool"@));
            let b = ("content"@, content_json(content));
            let c: Seq<(Seq<char>, JsonView)> = seq![("tool_call_id"@, jstr(tool_call_id))];
            assert(f =~= seq![a] + (seq![b] + c));
            lemma_three_lookups(a, b, c, "role"@);
            lemma_three_lookups(a, b, c, "content"@);
            lemma_three_lookups(a, b, c, "tool_call_id"@);
            reveal_with_fuel(crate::json::lookup, 2);
        },
    }
}

proof fn lemma_member_keys_distinct()
    ensures
        "role"@ != "content"@,
        "role"@ != "name"@,
        "role"@ != "tool_calls"@,
        "role"@ != "reasoning_content"@,
        "role"@ != "tool_call_id"@,
        "content"@ != "name"@,
        "content"@ != "tool_calls"@,
        "content"@ != "reasoning_content"@,
        "content"@ != "tool_call_id"@,
        "name"@ != "tool_calls"@,
        "name"@ != "reasoning_content"@,
        "tool_calls"@ != "reasoning_content"@,
{
    reveal_strlit("role");
    reveal_strlit("content");
    reveal_strlit("name");
    reveal_strlit("tool_calls");
    reveal_strlit("reasoning_content");
    reveal_strlit("tool_call_id");
    assert("role"@.len() == 4);
    assert("content"@.len() == 7);
    assert("name"@.len() == 4);
    assert("tool_calls"@.len() == 10);
    assert("reasoning_content"@.len() == 17);
    assert("tool_call_id"@.len() == 12);
    assert("role"@[0] != "name"@[0]);
    assert("content"@[0] != "tool_call_id"@[0]);
}

proof fn lemma_cons_lookup(a: (Seq<char>, JsonView), rest: Seq<(Seq<char>, JsonView)>, key: Seq<char>)
    ensures
        crate::json::lookup(seq![a] + rest, key) == if a.0 == key { Some(a.1) } else { crate::json::lookup(rest, key) },
{
    let f = seq![a] + rest;
    assert(f[0] == a);
    assert(f.drop_first() =~= rest);
}

proof fn lemma_three_lookups(a: (Seq<char>, JsonView), b: (Seq<char>, JsonView), rest: Seq<(Seq<char>, JsonView)>, key: Seq<char>)
    ensures
        crate::json::lookup(seq![a] + (seq![b] + rest), key) == if a.0 == key {
            Some(a.1)
        } else if b.0 == key {
            Some(b.1)
        } else {
            crate::json::lookup(rest, key)
        },
{
    lemma_cons_lookup(a, seq![b] + rest, key);
    lemma_cons_lookup(b, rest, key);
}

proof fn lemma_assistant_lookup(m: ChatMessageV, k: Seq<char>)
    requires
        m is Assistant,
    ensures
        ({
            let vc = match m->Assistant_content { Some(c) => Some(content_json(c)), None => None };
            let vt = match m->tool_calls { Some(t) => Some(tool_calls_json(t)), None => None };
            crate::json::lookup(message_json(m)->Object_0, k) == if k == "role"@ {
                Some(jstr("assistant"@))
            } else if k == "content"@ {
                vc
            } else if k == "name"@ {
                opt_seq_json(m->Assistant_name)
            } else if k == "tool_calls"@ {
                vt
            } else if k == "reasoning_content"@ {
                opt_seq_json(m->reasoning_content)
            } else {
                None
            }
        }),
{
    let vc = match m->Assistant_content { Some(c) => Some(content_json(c)), None => None };
    let vt = match m->tool_calls { Some(t) => Some(tool_calls_json(t)), None => None };
    reveal_strlit("role");
    reveal_strlit("content");
    reveal_strlit("name");
    reveal_strlit("tool_calls");
    reveal_strlit("reasoning_content");
    lemma_member_keys_distinct();
    let h0: Seq<(Seq<char>, JsonView)> = seq![("role"@, jstr("assistant"@))];
    let o1 = opt_member("content"@, vc);
    let o2 = opt_member("name"@, opt_seq_json(m->Assistant_name));
    let o3 = opt_member("tool_calls"@, vt);
    let o4 = opt_member("reasoning_content"@, opt_seq_json(m->reasoning_content));
    assert(message_json(m)->Object_0 =~= h0 + (o1 + (o2 + (o3 + o4))));
    lemma_cons_lookup(("role"@, jstr("assistant"@)), o1 + (o2 + (o3 + o4)), k);
    assert(h0 =~= seq![("role"@, jstr("assistant"@))]);
    lemma_lookup_concat(o1, o2 + (o3 + o4), k);
    lemma_lookup_concat(o2, o3 + o4, k);
    lemma_lookup_concat(o3, o4, k);
    lemma_lookup_opt_member("content"@, vc, k);
    lemma_lookup_opt_member("name"@, opt_seq_json(m->Assistant_name), k);
    lemma_lookup_opt_member("tool_calls"@, vt, k);
    lemma_lookup_opt_member("reasoning_content"@, opt_seq_json(m->reasoning_content), k);
}

/// A message's JSON form, whose text is hashed to intern it, determines
/// the message: two messages with the same JSON are the same message in every
/// field (so tool results for different calls, or messages of different
/// roles, never share it).
pub proof fn law_message_json_determines_message(a: ChatMessageV, b: ChatMessageV)
    requires
        message_json(a) == message_json(b),
    ensures
        a == b,
{
    lemma_message_members(a);
    lemma_message_members(b);
    reveal_strlit("system");
    reveal_strlit("user");
    reveal_strlit("assistant");
    reveal_strlit("tool");
    assert("system"@.len() == 6 && "user"@.len() == 4 && "assistant"@.len() == 9 && "tool"@.len() == 4);
    assert("user"@[0] != "tool"@[0]);
    assert(jstr(role_name(a)) == jstr(role_name(b)));
    assert(role_name(a) == role_name(b));
    match (a, b) {
        (ChatMessageV::System { content: c1, name: n1 }, ChatMessageV::System { content: c2, name: n2 }) => {
            lemma_content_json_injective(c1, c2);
            assert(opt_seq_json(n1) == opt_seq_json(n2));
        },
        (ChatMessageV::User { content: c1, name: n1 }, ChatMessageV::User { content: c2, name: n2 }) => {
            lemma_content_json_injective(c1, c2);
            assert(opt_seq_json(n1) == opt_seq_json(n2));
        },
        (ChatMessageV::Tool { content: c1, tool_call_id: i1 }, ChatMessageV::Tool { content: c2, tool_call_id: i2 }) => {
            lemma_content_json_injective(c1, c2);
            assert(jstr(i1) == jstr(i2));
        },
        (ChatMessageV::Assistant { content: c1, name: n1, tool_calls: t1, reasoning_content: r1 },
            ChatMessageV::Assistant { content: c2, name: n2, tool_calls: t2, reasoning_content: r2 }) => {
            assert(opt_seq_json(n1) == opt_seq_json(n2));
            assert(opt_seq_json(r1) == opt_seq_json(r2));
            if let (Some(x), Some(y)) = (c1, c2) {
                lemma_content_json_injective(x, y);
            }
            if let (Some(x), Some(y)) = (t1, t2) {
                lemma_tool_calls_json_injective(x, y);
            }
        },
        _ => {},
    }
}

} // verus!
