//! The Responses stream canonicalizer: it absorbs the events of a native
//! Responses upstream, whatever order and grouping they come in, and emits one
//! canonical event sequence per output item once the response completes.
use vstd::prelude::*;
use crate::json::{JsonValue, JsonView};
use crate::events::{SseEvent, SseEventV, OutputItem, OutputItemV, ContentPart, ContentPartV, ResponseShell, ResponseShellV, ApiError, ApiErrorV, opt_str, strs, parts, events_view, items_view};
use crate::metrics::Usage;
use crate::text::{str_eq, owned, concat2, push_decimal, decimal, is_blank, all_white, chars_of, seq_lt, str_less};

verus! {

/// What an output item is.
#[derive(Debug)]
pub enum ItemKind {
    Message,
    Reasoning,
    FunctionCall,
    CustomToolCall,
    Other(String),
}

pub enum KindV {
    Message,
    Reasoning,
    FunctionCall,
    CustomToolCall,
    Other(Seq<char>),
}

impl View for ItemKind {
    type V = KindV;

    open spec fn view(&self) -> KindV {
        match self {
            ItemKind::Message => KindV::Message,
            ItemKind::Reasoning => KindV::Reasoning,
            ItemKind::FunctionCall => KindV::FunctionCall,
            ItemKind::CustomToolCall => KindV::CustomToolCall,
            ItemKind::Other(s) => KindV::Other(s@),
        }
    }
}

/// Everything gathered so far about one output item.
#[derive(Debug)]
pub struct ItemState {
    key: String,
    id: Option<String>,
    order: u32,
    kind: ItemKind,
    role: Option<String>,
    text: String,
    text_seen: bool,
    reasoning_text: String,
    reasoning_deltas: Vec<String>,
    call_id: Option<String>,
    name: Option<String>,
    arguments: String,
    arguments_seen: bool,
    custom_input: String,
    custom_input_seen: bool,
}

/// The mathematical content of an item's state.
pub struct ItemV {
    pub key: Seq<char>,
    pub id: Option<Seq<char>>,
    pub order: u32,
    pub kind: KindV,
    pub role: Option<Seq<char>>,
    pub text: Seq<char>,
    pub text_seen: bool,
    pub reasoning_text: Seq<char>,
    pub reasoning_deltas: Seq<Seq<char>>,
    pub call_id: Option<Seq<char>>,
    pub name: Option<Seq<char>>,
    pub arguments: Seq<char>,
    pub arguments_seen: bool,
    pub custom_input: Seq<char>,
    pub custom_input_seen: bool,
}

impl View for ItemState {
    type V = ItemV;

    closed spec fn view(&self) -> ItemV {
        ItemV {
            key: self.key@,
            id: opt_str(self.id),
            order: self.order,
            kind: self.kind@,
            role: opt_str(self.role),
            text: self.text@,
            text_seen: self.text_seen,
            reasoning_text: self.reasoning_text@,
            reasoning_deltas: strs(self.reasoning_deltas@),
            call_id: opt_str(self.call_id),
            name: opt_str(self.name),
            arguments: self.arguments@,
            arguments_seen: self.arguments_seen,
            custom_input: self.custom_input@,
            custom_input_seen: self.custom_input_seen,
        }
    }
}

/// Canonicalizes one native Responses stream.
#[derive(Debug)]
pub struct ResponsesCanonicalizer {
    response_id: String,
    model: String,
    created_at: i64,
    created_sent: bool,
    in_progress_sent: bool,
    completed: bool,
    next_output_index: u32,
    items: Vec<ItemState>,
    ignored_events: Vec<String>,
}

/// The mathematical content of the canonicalizer.
pub struct CanonV {
    pub response_id: Seq<char>,
    pub model: Seq<char>,
    pub created_at: i64,
    pub created_sent: bool,
    pub in_progress_sent: bool,
    pub completed: bool,
    pub next_output_index: u32,
    pub items: Seq<ItemV>,
    pub ignored: Seq<Seq<char>>,
}

pub open spec fn item_views(v: Seq<ItemState>) -> Seq<ItemV> {
    Seq::new(v.len(), |i: int| v[i]@)
}

impl View for ResponsesCanonicalizer {
    type V = CanonV;

    closed spec fn view(&self) -> CanonV {
        CanonV {
            response_id: self.response_id@,
            model: self.model@,
            created_at: self.created_at,
            created_sent: self.created_sent,
            in_progress_sent: self.in_progress_sent,
            completed: self.completed,
            next_output_index: self.next_output_index,
            items: item_views(self.items@),
            ignored: strs(self.ignored_events@),
        }
    }
}

/// The events produced for one upstream event, and the upstream response
/// object when the event completed or failed the response.
#[derive(Debug)]
pub struct CanonicalizerOutcome {
    pub events: Vec<SseEvent>,
    pub completed_response: Option<JsonValue>,
}

pub struct OutcomeV {
    pub events: Seq<SseEventV>,
    pub completed_response: Option<JsonView>,
}

impl View for CanonicalizerOutcome {
    type V = OutcomeV;

    open spec fn view(&self) -> OutcomeV {
        OutcomeV {
            events: events_view(self.events@),
            completed_response: match self.completed_response { Some(v) => Some(v@), None => None },
        }
    }
}

// ---------------------------------------------------------------------------
// What the upstream events carry.

/// The text of a content part: `output_text` text or `refusal` text.
pub open spec fn part_text(p: JsonView) -> Option<Seq<char>> {
    let t = p.get_str("type"@);
    if t == Some("output_text"@) {
        p.get_str("text"@)
    } else if t == Some("refusal"@) {
        p.get_str("refusal"@)
    } else {
        None
    }
}

/// The text of a summary part: `summary_text` text.
pub open spec fn summary_part_text_of(p: JsonView) -> Option<Seq<char>> {
    if p.get_str("type"@) == Some("summary_text"@) {
        p.get_str("text"@)
    } else {
        None
    }
}

pub open spec fn or_empty(o: Option<Seq<char>>) -> Seq<char> {
    match o {
        Some(s) => s,
        None => Seq::empty(),
    }
}

/// The texts of the content parts that have one, joined.
pub open spec fn joined_part_texts(ps: Seq<JsonView>) -> Seq<char>
    decreases ps.len(),
{
    if ps.len() == 0 {
        Seq::empty()
    } else {
        joined_part_texts(ps.drop_last()) + or_empty(part_text(ps.last()))
    }
}

/// The texts of the summary parts that have one, joined.
pub open spec fn joined_summary_texts(ps: Seq<JsonView>) -> Seq<char>
    decreases ps.len(),
{
    if ps.len() == 0 {
        Seq::empty()
    } else {
        joined_summary_texts(ps.drop_last()) + or_empty(summary_part_text_of(ps.last()))
    }
}

/// The text of a message item: its content parts' texts, when it has a content array.
pub open spec fn message_text_of(item: JsonView) -> Option<Seq<char>> {
    match item.get_array("content"@) {
        Some(c) => Some(joined_part_texts(c)),
        None => None,
    }
}

/// The text of a reasoning item: its non-empty summary text, else its
/// non-empty content text.
pub open spec fn reasoning_text_of(item: JsonView) -> Option<Seq<char>> {
    let from_summary = match item.get_array("summary"@) {
        Some(a) => joined_summary_texts(a),
        None => Seq::empty(),
    };
    let from_content = match item.get_array("content"@) {
        Some(a) => joined_part_texts(a),
        None => Seq::empty(),
    };
    if from_summary.len() > 0 {
        Some(from_summary)
    } else if from_content.len() > 0 {
        Some(from_content)
    } else {
        None
    }
}

/// The kind an item's `type` names.
pub open spec fn kind_of(item: JsonView) -> Option<KindV> {
    match item.get_str("type"@) {
        Some(t) => Some(
            if t == "message"@ {
                KindV::Message
            } else if t == "reasoning"@ {
                KindV::Reasoning
            } else if t == "function_call"@ {
                KindV::FunctionCall
            } else if t == "custom_tool_call"@ {
                KindV::CustomToolCall
            } else {
                KindV::Other(t)
            },
        ),
        None => None,
    }
}

/// The id of the item an event refers to: `item.id`, else `item_id`.
pub open spec fn event_item_id(ev: JsonView) -> Option<Seq<char>> {
    let from_item = match ev.get("item"@) {
        Some(it) => it.get_str("id"@),
        None => None,
    };
    if from_item is Some {
        from_item
    } else {
        ev.get_str("item_id"@)
    }
}

/// The id a newly seen item is given: `item_id`, else `item.id`.
pub open spec fn new_item_id(ev: JsonView) -> Option<Seq<char>> {
    if ev.get_str("item_id"@) is Some {
        ev.get_str("item_id"@)
    } else {
        match ev.get("item"@) {
            Some(it) => it.get_str("id"@),
            None => None,
        }
    }
}

pub open spec fn kind_prefix(kind: Option<KindV>) -> Seq<char> {
    match kind {
        Some(KindV::Message) => "message"@,
        Some(KindV::Reasoning) => "reasoning"@,
        Some(KindV::FunctionCall) => "function"@,
        Some(KindV::CustomToolCall) => "custom"@,
        Some(KindV::Other(v)) => if v.len() > 0 { v } else { "item"@ },
        None => "item"@,
    }
}

/// The key an event's item is tracked under: its id, else `out:<output_index>`,
/// else `<kind>:implicit`.
pub open spec fn key_of(ev: JsonView, kind: Option<KindV>) -> Seq<char> {
    match event_item_id(ev) {
        Some(id) => id,
        None => match ev.get_u64("output_index"@) {
            Some(n) => "out:"@ + decimal(n as nat),
            None => kind_prefix(kind) + ":implicit"@,
        },
    }
}

/// The index of the first tracked item with key `key` at or after `i`.
pub open spec fn find_key(items: Seq<ItemV>, key: Seq<char>, i: int) -> Option<int>
    decreases items.len() - i,
{
    if i < 0 || i >= items.len() {
        None
    } else if items[i].key == key {
        Some(i)
    } else {
        find_key(items, key, i + 1)
    }
}

pub open spec fn sat_add1(x: u32) -> u32 {
    if x == u32::MAX { x } else { (x + 1) as u32 }
}

pub open spec fn max_u32(a: u32, b: u32) -> u32 {
    if a >= b { a } else { b }
}

/// A freshly tracked item.
pub open spec fn fresh_item(key: Seq<char>, id: Option<Seq<char>>, order: u32, kind: Option<KindV>) -> ItemV {
    ItemV {
        key,
        id,
        order,
        kind: match kind { Some(k) => k, None => KindV::Other(Seq::empty()) },
        role: None,
        text: Seq::empty(),
        text_seen: false,
        reasoning_text: Seq::empty(),
        reasoning_deltas: Seq::empty(),
        call_id: None,
        name: None,
        arguments: Seq::empty(),
        arguments_seen: false,
        custom_input: Seq::empty(),
        custom_input_seen: false,
    }
}

/// The event's `output_index`, when it fits in a `u32`.
pub open spec fn event_output_index(ev: JsonView) -> Option<u32> {
    match ev.get_u64("output_index"@) {
        Some(n) => if n <= u32::MAX { Some(n as u32) } else { None },
        None => None,
    }
}

/// The state and item index after looking up the item an event refers to,
/// tracking a new item when none has its key. A new item takes the event's
/// output index as its order, or the next free index.
pub open spec fn with_item(s: CanonV, ev: JsonView, kind: Option<KindV>) -> (CanonV, int) {
    let key = key_of(ev, kind);
    match find_key(s.items, key, 0) {
        Some(i) => (s, i),
        None => {
            let (next, order) = match event_output_index(ev) {
                Some(o) => (max_u32(s.next_output_index, sat_add1(o)), o),
                None => (sat_add1(s.next_output_index), s.next_output_index),
            };
            (
                CanonV { next_output_index: next, items: s.items.push(fresh_item(key, new_item_id(ev), order, kind)), ..s },
                s.items.len() as int,
            )
        },
    }
}

pub open spec fn set_item(s: CanonV, i: int, it: ItemV) -> CanonV {
    CanonV { items: s.items.update(i, it), ..s }
}

/// An item after absorbing the fields of a full item object. The role is taken
/// only when `with_role`.
pub open spec fn absorb_head(it: ItemV, item: JsonView, with_role: bool) -> ItemV {
    let it1 = match kind_of(item) { Some(k) => ItemV { kind: k, ..it }, None => it };
    let it2 = match item.get_str("id"@) { Some(v) => ItemV { id: Some(v), ..it1 }, None => it1 };
    let it3 = if with_role {
        match item.get_str("role"@) { Some(v) => ItemV { role: Some(v), ..it2 }, None => it2 }
    } else {
        it2
    };
    let it4 = match item.get_str("call_id"@) { Some(v) => ItemV { call_id: Some(v), ..it3 }, None => it3 };
    match item.get_str("name"@) { Some(v) => ItemV { name: Some(v), ..it4 }, None => it4 }
}

pub open spec fn absorb_payload(it: ItemV, item: JsonView) -> ItemV {
    let it6 = match item.get_str("arguments"@) {
        Some(v) => ItemV { arguments: v, arguments_seen: true, ..it },
        None => it,
    };
    match item.get_str("input"@) {
        Some(v) => ItemV { custom_input: v, custom_input_seen: true, ..it6 },
        None => it6,
    }
}

pub open spec fn absorb_texts(it: ItemV, item: JsonView) -> ItemV {
    let it8 = match message_text_of(item) {
        Some(v) => ItemV { text: v, text_seen: true, ..it },
        None => it,
    };
    match reasoning_text_of(item) {
        Some(v) => ItemV {
            reasoning_text: v,
            reasoning_deltas: if it8.reasoning_deltas.len() == 0 && v.len() > 0 {
                it8.reasoning_deltas.push(v)
            } else {
                it8.reasoning_deltas
            },
            ..it8
        },
        None => it8,
    }
}

/// An item after absorbing the fields of a full item object. The role is taken
/// only when `with_role`.
pub open spec fn absorb_item(it: ItemV, item: JsonView, with_role: bool) -> ItemV {
    absorb_texts(absorb_payload(absorb_head(it, item, with_role), item), item)
}

/// The state after an event that carries a full item (`output_item.added` or
/// `output_item.done`).
pub open spec fn capture_item(s: CanonV, ev: JsonView) -> CanonV {
    match ev.get("item"@) {
        Some(item) => {
            let (s1, i) = with_item(s, ev, kind_of(item));
            set_item(s1, i, absorb_item(s1.items[i], item, true))
        },
        None => s,
    }
}

/// The state after reading the id, model and creation time of a response object.
pub open spec fn capture_response(s: CanonV, response: Option<JsonView>) -> CanonV {
    match response {
        Some(r) => {
            let s1 = match r.get_str("id"@) { Some(v) => CanonV { response_id: v, ..s }, None => s };
            let s2 = match r.get_str("model"@) { Some(v) => CanonV { model: v, ..s1 }, None => s1 };
            match r.get("created_at"@) {
                Some(c) => match c.as_i64() { Some(t) => CanonV { created_at: t, ..s2 }, None => s2 },
                None => s2,
            }
        },
        None => s,
    }
}

/// A response object with only the stream's identity and the given status.
pub open spec fn minimal_shell(s: CanonV, status: Seq<char>) -> ResponseShellV {
    ResponseShellV {
        id: s.response_id,
        model: s.model,
        created_at: s.created_at,
        status,
        output: None,
        output_text: None,
        usage: None,
        previous_response_id: None,
        error: None,
    }
}

/// The state and events that announce the response, each at most once.
pub open spec fn started(s: CanonV) -> (CanonV, Seq<SseEventV>) {
    let e1: Seq<SseEventV> = if s.created_sent {
        Seq::empty()
    } else {
        seq![SseEventV::Created { response: minimal_shell(s, "in_progress"@) }]
    };
    let e2: Seq<SseEventV> = if s.in_progress_sent {
        Seq::empty()
    } else {
        seq![SseEventV::InProgress { response: minimal_shell(s, "in_progress"@) }]
    };
    (CanonV { created_sent: true, in_progress_sent: true, ..s }, e1 + e2)
}

/// Token usage read from an upstream `usage` object.
pub open spec fn usage_of(u: JsonView) -> Option<Usage> {
    match (u.get_u64("input_tokens"@), u.get_u64("output_tokens"@), u.get_u64("total_tokens"@)) {
        (Some(i), Some(o), Some(t)) => if u is Object && i <= u32::MAX && o <= u32::MAX && t <= u32::MAX {
            Some(Usage { input_tokens: i as u32, output_tokens: o as u32, total_tokens: t as u32 })
        } else {
            None
        },
        _ => None,
    }
}

/// A response object built from the upstream one: status, output text, usage
/// and previous response id are taken when present.
pub open spec fn shell_from(s: CanonV, response: Option<JsonView>, default_status: Seq<char>) -> ResponseShellV {
    let shell = minimal_shell(s, default_status);
    match response {
        Some(r) => ResponseShellV {
            status: match r.get_str("status"@) { Some(v) => v, None => default_status },
            output_text: r.get_str("output_text"@),
            usage: match r.get("usage"@) { Some(u) => usage_of(u), None => None },
            previous_response_id: r.get_str("previous_response_id"@),
            ..shell
        },
        None => shell,
    }
}

// ---------------------------------------------------------------------------
// What the canonical stream holds for each item.

/// An item's id, or `<prefix>_<order>` when the upstream gave none.
pub open spec fn item_id(it: ItemV, prefix: Seq<char>) -> Seq<char> {
    match it.id {
        Some(id) => id,
        None => prefix + "_"@ + decimal(it.order as nat),
    }
}

pub open spec fn role_or_assistant(it: ItemV) -> Seq<char> {
    match it.role {
        Some(r) => r,
        None => "assistant"@,
    }
}

pub open spec fn message_item(it: ItemV) -> OutputItemV {
    OutputItemV::Message {
        id: item_id(it, "msg"@),
        status: "completed"@,
        role: role_or_assistant(it),
        content: seq![ContentPartV::OutputText(it.text)],
    }
}

pub open spec fn reasoning_item(it: ItemV) -> OutputItemV {
    OutputItemV::Reasoning { id: item_id(it, "rs"@), summary: seq![it.reasoning_text], status: None }
}

pub open spec fn function_item(it: ItemV) -> OutputItemV {
    OutputItemV::FunctionCall {
        id: item_id(it, "fc"@),
        status: "completed"@,
        call_id: or_empty(it.call_id),
        name: or_empty(it.name),
        arguments: it.arguments,
    }
}

pub open spec fn custom_tool_item(it: ItemV) -> OutputItemV {
    OutputItemV::CustomToolCall {
        id: item_id(it, "ctc"@),
        status: "completed"@,
        call_id: or_empty(it.call_id),
        name: or_empty(it.name),
        input: it.custom_input,
    }
}

/// The canonical events of a message item.
pub open spec fn message_events(it: ItemV) -> Seq<SseEventV> {
    let id = item_id(it, "msg"@);
    let oi = it.order;
    seq![
        SseEventV::OutputItemAdded {
            output_index: oi,
            item: OutputItemV::Message { id, status: "in_progress"@, role: role_or_assistant(it), content: Seq::empty() },
        },
        SseEventV::ContentPartAdded { item_id: id, output_index: oi, content_index: 0, part: ContentPartV::OutputText(Seq::empty()) },
        SseEventV::OutputTextDelta { item_id: id, output_index: oi, content_index: 0, delta: it.text },
        SseEventV::OutputTextDone { item_id: id, output_index: oi, content_index: 0, text: it.text },
        SseEventV::ContentPartDone { item_id: id, output_index: oi, content_index: 0, part: ContentPartV::OutputText(it.text) },
        SseEventV::OutputItemDone { output_index: oi, item: message_item(it) },
    ]
}

/// One summary delta event per non-empty delta, in order.
pub open spec fn delta_events(ds: Seq<Seq<char>>, id: Seq<char>, oi: u32) -> Seq<SseEventV>
    decreases ds.len(),
{
    if ds.len() == 0 {
        Seq::empty()
    } else {
        delta_events(ds.drop_last(), id, oi) + if ds.last().len() > 0 {
            seq![SseEventV::ReasoningSummaryTextDelta { item_id: id, output_index: oi, summary_index: 0, delta: ds.last() }]
        } else {
            Seq::<SseEventV>::empty()
        }
    }
}

/// The deltas replayed for a reasoning item: the recorded ones, or its whole text.
pub open spec fn replayed_deltas(it: ItemV) -> Seq<Seq<char>> {
    if it.reasoning_deltas.len() == 0 {
        seq![it.reasoning_text]
    } else {
        it.reasoning_deltas
    }
}

/// The canonical events of a reasoning item.
pub open spec fn reasoning_events(it: ItemV) -> Seq<SseEventV> {
    let id = item_id(it, "rs"@);
    let oi = it.order;
    seq![
        SseEventV::OutputItemAdded {
            output_index: oi,
            item: OutputItemV::Reasoning { id, summary: Seq::empty(), status: Some("in_progress"@) },
        },
        SseEventV::ReasoningSummaryPartAdded { item_id: id, output_index: oi, summary_index: 0, part: Seq::empty() },
    ] + delta_events(replayed_deltas(it), id, oi) + seq![
        SseEventV::ReasoningSummaryTextDone { item_id: id, output_index: oi, summary_index: 0, text: it.reasoning_text },
        SseEventV::ReasoningSummaryPartDone { item_id: id, output_index: oi, summary_index: 0, part: it.reasoning_text },
        SseEventV::OutputItemDone { output_index: oi, item: reasoning_item(it) },
    ]
}

/// The canonical events of a function call item.
pub open spec fn function_events(it: ItemV) -> Seq<SseEventV> {
    let id = item_id(it, "fc"@);
    let oi = it.order;
    seq![
        SseEventV::OutputItemAdded {
            output_index: oi,
            item: OutputItemV::FunctionCall {
                id, status: "in_progress"@, call_id: or_empty(it.call_id), name: or_empty(it.name), arguments: Seq::empty(),
            },
        },
        SseEventV::FunctionCallArgumentsDelta { item_id: id, output_index: oi, delta: it.arguments },
        SseEventV::FunctionCallArgumentsDone { item_id: id, output_index: oi, arguments: it.arguments, name: it.name },
        SseEventV::OutputItemDone { output_index: oi, item: function_item(it) },
    ]
}

/// The canonical events of a custom tool call item.
pub open spec fn custom_tool_events(it: ItemV) -> Seq<SseEventV> {
    let id = item_id(it, "ctc"@);
    let oi = it.order;
    seq![
        SseEventV::OutputItemAdded {
            output_index: oi,
            item: OutputItemV::CustomToolCall {
                id, status: "in_progress"@, call_id: or_empty(it.call_id), name: or_empty(it.name), input: Seq::empty(),
            },
        },
        SseEventV::CustomToolCallInputDelta { item_id: id, output_index: oi, delta: it.custom_input },
        SseEventV::CustomToolCallInputDone { item_id: id, output_index: oi, input: it.custom_input },
        SseEventV::OutputItemDone { output_index: oi, item: custom_tool_item(it) },
    ]
}

pub open spec fn interrupted(message: Seq<char>) -> ApiErrorV {
    ApiErrorV { error_type: "stream_interrupted"@, message, code: None, param: None }
}

/// Why a tool call item cannot be completed, if it cannot: a missing call id,
/// name, or (for `what == "arguments"`/`"input"`) payload.
pub open spec fn missing_field(it: ItemV, payload_seen: bool, payload_msg: Seq<char>) -> Option<ApiErrorV> {
    if it.call_id is None {
        Some(interrupted("missing call_id for Responses output item "@ + it.key))
    } else if it.name is None {
        Some(interrupted("missing name for Responses output item "@ + it.key))
    } else if !payload_seen {
        Some(interrupted(payload_msg + it.key))
    } else {
        None
    }
}

pub open spec fn is_tool(k: KindV) -> bool {
    k is FunctionCall || k is CustomToolCall
}

pub open spec fn nonblank_non_tool(it: ItemV) -> bool {
    (it.kind is Message && !all_white(it.text)) || (it.kind is Reasoning && !all_white(it.reasoning_text))
}

/// The events and output items of one item at completion, or why it fails.
pub open spec fn item_step(it: ItemV, has_tool: bool, has_text: bool) -> Result<(Seq<SseEventV>, Seq<OutputItemV>), ApiErrorV> {
    match it.kind {
        KindV::Reasoning => if all_white(it.reasoning_text) {
            Ok((Seq::empty(), Seq::empty()))
        } else {
            Ok((reasoning_events(it), seq![reasoning_item(it)]))
        },
        KindV::Message => if all_white(it.text) && (has_tool || has_text) {
            Ok((Seq::empty(), Seq::empty()))
        } else {
            Ok((message_events(it), seq![message_item(it)]))
        },
        KindV::FunctionCall => match missing_field(it, it.arguments_seen, "missing arguments for Responses function call "@) {
            Some(e) => Err(e),
            None => Ok((function_events(it), seq![function_item(it)])),
        },
        KindV::CustomToolCall => match missing_field(it, it.custom_input_seen, "missing input for Responses custom tool call "@) {
            Some(e) => Err(e),
            None => Ok((custom_tool_events(it), seq![custom_tool_item(it)])),
        },
        KindV::Other(_) => Ok((Seq::empty(), Seq::empty())),
    }
}

/// The events and output items of the items in order, or the first failure.
pub open spec fn items_steps(items: Seq<ItemV>, has_tool: bool, has_text: bool) -> Result<(Seq<SseEventV>, Seq<OutputItemV>), ApiErrorV>
    decreases items.len(),
{
    if items.len() == 0 {
        Ok((Seq::empty(), Seq::empty()))
    } else {
        match items_steps(items.drop_last(), has_tool, has_text) {
            Err(e) => Err(e),
            Ok((evs, outs)) => match item_step(items.last(), has_tool, has_text) {
                Err(e) => Err(e),
                Ok((e2, o2)) => Ok((evs + e2, outs + o2)),
            },
        }
    }
}

/// The joined text of a message's output text and refusal parts.
pub open spec fn content_text(ps: Seq<ContentPartV>) -> Seq<char>
    decreases ps.len(),
{
    if ps.len() == 0 {
        Seq::empty()
    } else {
        content_text(ps.drop_last()) + match ps.last() {
            ContentPartV::OutputText(t) => t,
            ContentPartV::Refusal(t) => t,
        }
    }
}

/// The response's `output_text`: the texts of its message items, joined.
pub open spec fn output_text_of(items: Seq<OutputItemV>) -> Seq<char>
    decreases items.len(),
{
    if items.len() == 0 {
        Seq::empty()
    } else {
        output_text_of(items.drop_last()) + match items.last() {
            OutputItemV::Message { content, .. } => content_text(content),
            _ => Seq::empty(),
        }
    }
}

// ---------------------------------------------------------------------------
// The order items are emitted in: by output index, then by key.

/// Whether item `a` is emitted before item `b`.
pub open spec fn item_before(a: ItemV, b: ItemV) -> bool {
    a.order < b.order || (a.order == b.order && seq_lt(a.key, b.key))
}

/// The index of the first item that no other item comes before.
pub open spec fn min_index(items: Seq<ItemV>) -> int
    decreases items.len(),
{
    if items.len() <= 1 {
        0
    } else {
        let m = min_index(items.drop_last());
        if item_before(items.last(), items[m]) {
            items.len() - 1
        } else {
            m
        }
    }
}

/// The items in emission order.
pub open spec fn sorted_items(items: Seq<ItemV>) -> Seq<ItemV>
    decreases items.len(),
{
    if items.len() == 0 {
        Seq::empty()
    } else {
        let m = min_index(items);
        if 0 <= m < items.len() {
            seq![items[m]] + sorted_items(items.remove(m))
        } else {
            Seq::empty()
        }
    }
}

// ---------------------------------------------------------------------------
// The state machine.

/// The state and events at `response.completed`, or why the completion fails.
pub open spec fn finalize_spec(s: CanonV, response: Option<JsonView>) -> (CanonV, Result<Seq<SseEventV>, ApiErrorV>) {
    if s.completed {
        (s, Ok(Seq::empty()))
    } else {
        let (s2, start) = started(CanonV { completed: true, ..s });
        let order = sorted_items(s2.items);
        let has_tool = exists|i: int| 0 <= i < order.len() && is_tool(#[trigger] order[i].kind);
        let has_text = exists|i: int| 0 <= i < order.len() && nonblank_non_tool(#[trigger] order[i]);
        match items_steps(order, has_tool, has_text) {
            Err(e) => (s2, Err(e)),
            Ok((evs, outs)) => {
                let shell = shell_from(s2, response, "completed"@);
                let done = ResponseShellV { output_text: Some(output_text_of(outs)), output: Some(outs), ..shell };
                (s2, Ok(start + evs + seq![SseEventV::Completed { response: done }]))
            },
        }
    }
}

pub open spec fn no_events(s: CanonV) -> (CanonV, Result<OutcomeV, ApiErrorV>) {
    (s, Ok(OutcomeV { events: Seq::empty(), completed_response: None }))
}

pub open spec fn str_or_empty(ev: JsonView, key: Seq<char>) -> Seq<char> {
    or_empty(ev.get_str(key))
}

/// An item after a text fragment of a message.
pub open spec fn on_text_delta(it: ItemV, delta: Seq<char>) -> ItemV {
    ItemV {
        kind: KindV::Message,
        role: Some(role_or_assistant(it)),
        text: it.text + delta,
        text_seen: true,
        ..it
    }
}

pub open spec fn upd_part_added(it: ItemV) -> ItemV {
    ItemV { role: Some(role_or_assistant(it)), ..it }
}

pub open spec fn upd_text_done(it: ItemV, ev: JsonView) -> ItemV {
    let it1 = ItemV { kind: KindV::Message, role: Some(role_or_assistant(it)), ..it };
    match ev.get_str("text"@) { Some(t) => ItemV { text: t, text_seen: true, ..it1 }, None => it1 }
}

pub open spec fn upd_part_done(it: ItemV, ev: JsonView) -> ItemV {
    match ev.get("part"@) {
        Some(p) => match part_text(p) { Some(t) => ItemV { text: t, text_seen: true, ..it }, None => it },
        None => it,
    }
}

pub open spec fn upd_summary_part_added(it: ItemV) -> ItemV {
    ItemV { kind: KindV::Reasoning, ..it }
}

pub open spec fn upd_reasoning_delta(it: ItemV, ev: JsonView) -> ItemV {
    let d = str_or_empty(ev, "delta"@);
    ItemV { kind: KindV::Reasoning, reasoning_text: it.reasoning_text + d, reasoning_deltas: it.reasoning_deltas.push(d), ..it }
}

pub open spec fn upd_summary_text_done(it: ItemV, ev: JsonView) -> ItemV {
    let it1 = ItemV { kind: KindV::Reasoning, ..it };
    match ev.get_str("text"@) {
        Some(t) => ItemV {
            reasoning_text: t,
            reasoning_deltas: if it1.reasoning_deltas.len() == 0 && t.len() > 0 { it1.reasoning_deltas.push(t) } else { it1.reasoning_deltas },
            ..it1
        },
        None => it1,
    }
}

pub open spec fn upd_summary_part_done(it: ItemV, ev: JsonView) -> ItemV {
    let it1 = ItemV { kind: KindV::Reasoning, ..it };
    match ev.get("part"@) {
        Some(p) => match summary_part_text_of(p) { Some(t) => ItemV { reasoning_text: t, ..it1 }, None => it1 },
        None => it1,
    }
}

pub open spec fn upd_args_delta(it: ItemV, ev: JsonView) -> ItemV {
    ItemV { kind: KindV::FunctionCall, arguments: it.arguments + str_or_empty(ev, "delta"@), arguments_seen: true, ..it }
}

pub open spec fn upd_args_done(it: ItemV, ev: JsonView) -> ItemV {
    let it1 = ItemV { kind: KindV::FunctionCall, ..it };
    let it2 = match ev.get_str("arguments"@) { Some(a) => ItemV { arguments: a, arguments_seen: true, ..it1 }, None => it1 };
    match ev.get_str("name"@) { Some(n) => ItemV { name: Some(n), ..it2 }, None => it2 }
}

pub open spec fn upd_input_delta(it: ItemV, ev: JsonView) -> ItemV {
    ItemV { kind: KindV::CustomToolCall, custom_input: it.custom_input + str_or_empty(ev, "delta"@), custom_input_seen: true, ..it }
}

pub open spec fn upd_input_done(it: ItemV, ev: JsonView) -> ItemV {
    let it1 = ItemV { kind: KindV::CustomToolCall, ..it };
    match ev.get_str("input"@) { Some(v) => ItemV { custom_input: v, custom_input_seen: true, ..it1 }, None => it1 }
}

/// How a tracked item changes for each kind of item-level upstream event.
#[verifier::opaque]
pub open spec fn item_update(event_type: Seq<char>, it: ItemV, ev: JsonView) -> ItemV {
    if event_type == "response.content_part.added"@ {
        upd_part_added(it)
    } else if event_type == "response.output_text.delta"@ {
        on_text_delta(it, str_or_empty(ev, "delta"@))
    } else if event_type == "response.output_text.done"@ {
        upd_text_done(it, ev)
    } else if event_type == "response.content_part.done"@ {
        upd_part_done(it, ev)
    } else if event_type == "response.reasoning_summary_part.added"@ {
        upd_summary_part_added(it)
    } else if event_type == "response.reasoning_summary_text.delta"@ || event_type == "response.reasoning_text.delta"@ {
        upd_reasoning_delta(it, ev)
    } else if event_type == "response.reasoning_summary_text.done"@ {
        upd_summary_text_done(it, ev)
    } else if event_type == "response.reasoning_summary_part.done"@ {
        upd_summary_part_done(it, ev)
    } else if event_type == "response.function_call_arguments.delta"@ {
        upd_args_delta(it, ev)
    } else if event_type == "response.function_call_arguments.done"@ {
        upd_args_done(it, ev)
    } else if event_type == "response.custom_tool_call_input.delta"@ {
        upd_input_delta(it, ev)
    } else {
        upd_input_done(it, ev)
    }
}

/// The item kind an item-level event implies when it starts tracking an item.
#[verifier::opaque]
pub open spec fn event_kind(event_type: Seq<char>) -> Option<KindV> {
    if event_type == "response.content_part.added"@ || event_type == "response.output_text.delta"@
        || event_type == "response.output_text.done"@ || event_type == "response.content_part.done"@ {
        Some(KindV::Message)
    } else if event_type == "response.reasoning_summary_part.added"@ || event_type == "response.reasoning_summary_text.delta"@
        || event_type == "response.reasoning_text.delta"@ || event_type == "response.reasoning_summary_text.done"@
        || event_type == "response.reasoning_summary_part.done"@ {
        Some(KindV::Reasoning)
    } else if event_type == "response.function_call_arguments.delta"@ || event_type == "response.function_call_arguments.done"@ {
        Some(KindV::FunctionCall)
    } else if event_type == "response.custom_tool_call_input.delta"@ || event_type == "response.custom_tool_call_input.done"@ {
        Some(KindV::CustomToolCall)
    } else {
        None
    }
}

/// The state and outcome after one upstream event.
pub open spec fn process_spec(s: CanonV, ev: JsonView) -> (CanonV, Result<OutcomeV, ApiErrorV>) {
    match ev.get_str("type"@) {
        None => no_events(CanonV { ignored: s.ignored.push("<missing type>"@), ..s }),
        Some(t) => {
            if t == "response.created"@ || t == "response.in_progress"@ {
                let (s2, evs) = started(capture_response(s, ev.get("response"@)));
                (s2, Ok(OutcomeV { events: evs, completed_response: None }))
            } else if t == "response.output_item.added"@ {
                no_events(capture_item(s, ev))
            } else if event_kind(t) is Some {
                let (s1, i) = with_item(s, ev, event_kind(t));
                no_events(set_item(s1, i, item_update(t, s1.items[i], ev)))
            } else if t == "response.output_item.done"@ {
                let s1 = capture_item(s, ev);
                let (s2, i) = with_item(s1, ev, None);
                let s3 = match ev.get("item"@) {
                    Some(item) => set_item(s2, i, absorb_item(s2.items[i], item, false)),
                    None => s2,
                };
                no_events(s3)
            } else if t == "response.completed"@ {
                let (s2, r) = finalize_spec(capture_response(s, ev.get("response"@)), ev.get("response"@));
                match r {
                    Err(e) => (s2, Err(e)),
                    Ok(evs) => (s2, Ok(OutcomeV { events: evs, completed_response: ev.get("response"@) })),
                }
            } else if t == "response.failed"@ {
                let (s2, evs) = started(CanonV { completed: true, ..s });
                let shell = shell_from(s2, ev.get("response"@), "failed"@);
                (s2, Ok(OutcomeV {
                    events: evs.push(SseEventV::Failed { response: shell }),
                    completed_response: ev.get("response"@),
                }))
            } else {
                no_events(CanonV { ignored: s.ignored.push(t), ..s })
            }
        },
    }
}

// ---------------------------------------------------------------------------
// Reading upstream events.

fn part_text_exec(p: &JsonValue) -> (r: Option<String>)
    ensures
        opt_str(r) == part_text(p@),
{
    match p.get_str("type") {
        Some(t) => {
            if str_eq(t.as_str(), "output_text") {
                match p.get_str("text") { Some(x) => Some(x.clone()), None => None }
            } else if str_eq(t.as_str(), "refusal") {
                match p.get_str("refusal") { Some(x) => Some(x.clone()), None => None }
            } else {
                None
            }
        }
        None => None,
    }
}

fn summary_part_text_exec(p: &JsonValue) -> (r: Option<String>)
    ensures
        opt_str(r) == summary_part_text_of(p@),
{
    match p.get_str("type") {
        Some(t) => {
            if str_eq(t.as_str(), "summary_text") {
                match p.get_str("text") { Some(x) => Some(x.clone()), None => None }
            } else {
                None
            }
        }
        None => None,
    }
}

pub open spec fn views_of(v: Seq<JsonValue>) -> Seq<JsonView> {
    Seq::new(v.len(), |i: int| v[i]@)
}

fn joined_parts_exec(ps: &Vec<JsonValue>, summary: bool) -> (r: String)
    ensures
        r@ == if summary { joined_summary_texts(views_of(ps@)) } else { joined_part_texts(views_of(ps@)) },
{
    let mut out = String::new();
    let mut i: usize = 0;
    while i < ps.len()
        invariant
            i <= ps@.len(),
            out@ == if summary { joined_summary_texts(views_of(ps@).take(i as int)) } else { joined_part_texts(views_of(ps@).take(i as int)) },
        decreases ps@.len() - i,
    {
        let t = if summary { summary_part_text_exec(&ps[i]) } else { part_text_exec(&ps[i]) };
        if let Some(t) = t {
            out.append(t.as_str());
        }
        assert(views_of(ps@).take(i + 1).drop_last() =~= views_of(ps@).take(i as int));
        i = i + 1;
    }
    assert(views_of(ps@).take(ps@.len() as int) =~= views_of(ps@));
    out
}

proof fn lemma_array_views(v: &JsonValue, items: &Vec<JsonValue>)
    requires
        *v == JsonValue::Array(*items),
    ensures
        v@.as_array() == Some(views_of(items@)),
{
    assert(v@->Array_0 =~= views_of(items@));
}

fn get_array<'a>(v: &'a JsonValue, key: &str) -> (r: Option<&'a Vec<JsonValue>>)
    ensures
        match r {
            Some(items) => v@.get_array(key@) == Some(views_of(items@)),
            None => v@.get_array(key@) is None,
        },
{
    match v.get(key) {
        Some(x) => match x {
            JsonValue::Array(items) => {
                proof { lemma_array_views(x, items); }
                Some(items)
            }
            _ => None,
        },
        None => None,
    }
}

fn message_item_text(item: &JsonValue) -> (r: Option<String>)
    ensures
        opt_str(r) == message_text_of(item@),
{
    match get_array(item, "content") {
        Some(c) => Some(joined_parts_exec(c, false)),
        None => None,
    }
}

fn reasoning_item_text(item: &JsonValue) -> (r: Option<String>)
    ensures
        opt_str(r) == reasoning_text_of(item@),
{
    let from_summary = match get_array(item, "summary") {
        Some(a) => joined_parts_exec(a, true),
        None => String::new(),
    };
    if !from_summary.as_str().is_empty() {
        return Some(from_summary);
    }
    let from_content = match get_array(item, "content") {
        Some(a) => joined_parts_exec(a, false),
        None => String::new(),
    };
    if !from_content.as_str().is_empty() {
        return Some(from_content);
    }
    None
}

fn item_kind(item: &JsonValue) -> (r: Option<ItemKind>)
    ensures
        match r { Some(k) => kind_of(item@) == Some(k@), None => kind_of(item@) is None },
{
    match item.get_str("type") {
        Some(t) => Some(
            if str_eq(t.as_str(), "message") {
                ItemKind::Message
            } else if str_eq(t.as_str(), "reasoning") {
                ItemKind::Reasoning
            } else if str_eq(t.as_str(), "function_call") {
                ItemKind::FunctionCall
            } else if str_eq(t.as_str(), "custom_tool_call") {
                ItemKind::CustomToolCall
            } else {
                ItemKind::Other(t.clone())
            },
        ),
        None => None,
    }
}

pub open spec fn kind_opt(k: Option<ItemKind>) -> Option<KindV> {
    match k {
        Some(k) => Some(k@),
        None => None,
    }
}

fn copy_kind(k: &ItemKind) -> (r: ItemKind)
    ensures
        r@ == k@,
{
    match k {
        ItemKind::Message => ItemKind::Message,
        ItemKind::Reasoning => ItemKind::Reasoning,
        ItemKind::FunctionCall => ItemKind::FunctionCall,
        ItemKind::CustomToolCall => ItemKind::CustomToolCall,
        ItemKind::Other(s) => ItemKind::Other(s.clone()),
    }
}

fn event_item_id_exec(ev: &JsonValue) -> (r: Option<String>)
    ensures
        opt_str(r) == event_item_id(ev@),
{
    let from_item = match ev.get("item") {
        Some(it) => match it.get_str("id") { Some(x) => Some(x.clone()), None => None },
        None => None,
    };
    if from_item.is_some() {
        from_item
    } else {
        match ev.get_str("item_id") { Some(x) => Some(x.clone()), None => None }
    }
}

fn new_item_id_exec(ev: &JsonValue) -> (r: Option<String>)
    ensures
        opt_str(r) == new_item_id(ev@),
{
    match ev.get_str("item_id") {
        Some(x) => Some(x.clone()),
        None => match ev.get("item") {
            Some(it) => match it.get_str("id") { Some(x) => Some(x.clone()), None => None },
            None => None,
        },
    }
}

fn item_key(ev: &JsonValue, kind: &Option<ItemKind>) -> (r: String)
    ensures
        r@ == key_of(ev@, kind_opt(*kind)),
{
    if let Some(id) = event_item_id_exec(ev) {
        return id;
    }
    if let Some(n) = ev.get_u64("output_index") {
        let mut k = owned("out:");
        push_decimal(&mut k, n);
        return k;
    }
    let mut k = match kind {
        Some(ItemKind::Message) => owned("message"),
        Some(ItemKind::Reasoning) => owned("reasoning"),
        Some(ItemKind::FunctionCall) => owned("function"),
        Some(ItemKind::CustomToolCall) => owned("custom"),
        Some(ItemKind::Other(v)) => if !v.as_str().is_empty() { v.clone() } else { owned("item") },
        None => owned("item"),
    };
    k.append(":implicit");
    k
}

fn fresh_item_exec(key: String, id: Option<String>, order: u32, kind: Option<ItemKind>) -> (r: ItemState)
    ensures
        r@ == fresh_item(key@, opt_str(id), order, kind_opt(kind)),
{
    let r = ItemState {
        key,
        id,
        order,
        kind: match kind { Some(k) => k, None => ItemKind::Other(String::new()) },
        role: None,
        text: String::new(),
        text_seen: false,
        reasoning_text: String::new(),
        reasoning_deltas: Vec::new(),
        call_id: None,
        name: None,
        arguments: String::new(),
        arguments_seen: false,
        custom_input: String::new(),
        custom_input_seen: false,
    };
    assert(r@.reasoning_deltas =~= Seq::<Seq<char>>::empty());
    r
}

fn clone_opt(o: &Option<String>) -> (r: Option<String>)
    ensures
        opt_str(r) == opt_str(*o),
{
    match o {
        Some(s) => Some(s.clone()),
        None => None,
    }
}

fn clone_strings(v: &Vec<String>) -> (r: Vec<String>)
    ensures
        strs(r@) == strs(v@),
{
    let mut out: Vec<String> = Vec::new();
    let mut i: usize = 0;
    while i < v.len()
        invariant
            i <= v@.len(),
            out@.len() == i,
            forall|j: int| 0 <= j < i ==> (#[trigger] out@[j])@ == v@[j]@,
        decreases v@.len() - i,
    {
        out.push(v[i].clone());
        i = i + 1;
    }
    assert(strs(out@) =~= strs(v@));
    out
}

fn absorb_head_exec(it: &mut ItemState, item: &JsonValue, with_role: bool)
    ensures
        final(it)@ == absorb_head(old(it)@, item@, with_role),
{
    if let Some(k) = item_kind(item) {
        it.kind = k;
    }
    if let Some(v) = item.get_str("id") {
        it.id = Some(v.clone());
    }
    if with_role {
        if let Some(v) = item.get_str("role") {
            it.role = Some(v.clone());
        }
    }
    if let Some(v) = item.get_str("call_id") {
        it.call_id = Some(v.clone());
    }
    if let Some(v) = item.get_str("name") {
        it.name = Some(v.clone());
    }
}

fn absorb_payload_exec(it: &mut ItemState, item: &JsonValue)
    ensures
        final(it)@ == absorb_payload(old(it)@, item@),
{
    if let Some(v) = item.get_str("arguments") {
        it.arguments = v.clone();
        it.arguments_seen = true;
    }
    if let Some(v) = item.get_str("input") {
        it.custom_input = v.clone();
        it.custom_input_seen = true;
    }
}

fn absorb_texts_exec(it: &mut ItemState, item: &JsonValue)
    ensures
        final(it)@ == absorb_texts(old(it)@, item@),
{
    if let Some(v) = message_item_text(item) {
        it.text = v;
        it.text_seen = true;
    }
    if let Some(v) = reasoning_item_text(item) {
        if it.reasoning_deltas.len() == 0 && !v.as_str().is_empty() {
            let ghost before = it.reasoning_deltas@;
            it.reasoning_deltas.push(v.clone());
            assert(strs(it.reasoning_deltas@) =~= strs(before).push(v@));
        }
        it.reasoning_text = v;
    }
}

/// `item` with its fields replaced by those a full item object carries.
fn absorb_item_exec(it: &mut ItemState, item: &JsonValue, with_role: bool)
    ensures
        final(it)@ == absorb_item(old(it)@, item@, with_role),
{
    absorb_head_exec(it, item, with_role);
    absorb_payload_exec(it, item);
    absorb_texts_exec(it, item);
}

impl ResponsesCanonicalizer {
    /// A canonicalizer for the response `response_id` of `model`, created at `created_at`.
    pub fn new(response_id: String, model: String, created_at: i64) -> (c: Self)
        ensures
            c@ == (CanonV {
                response_id: response_id@,
                model: model@,
                created_at,
                created_sent: false,
                in_progress_sent: false,
                completed: false,
                next_output_index: 0,
                items: Seq::empty(),
                ignored: Seq::empty(),
            }),
    {
        let c = ResponsesCanonicalizer {
            response_id,
            model,
            created_at,
            created_sent: false,
            in_progress_sent: false,
            completed: false,
            next_output_index: 0,
            items: Vec::new(),
            ignored_events: Vec::new(),
        };
        assert(c@.items =~= Seq::<ItemV>::empty());
        assert(c@.ignored =~= Seq::<Seq<char>>::empty());
        c
    }

    /// The types of the upstream events that were not understood, in order.
    pub fn ignored_events(&self) -> (r: &Vec<String>)
        ensures
            strs(r@) == self@.ignored,
    {
        &self.ignored_events
    }

    /// The id, model and creation time of the response being canonicalized.
    pub fn response_identity(&self) -> (r: (String, String, i64))
        ensures
            r.0@ == self@.response_id,
            r.1@ == self@.model,
            r.2 == self@.created_at,
    {
        (self.response_id.clone(), self.model.clone(), self.created_at)
    }

    /// Whether a completion or failure event has been seen.
    pub fn is_completed(&self) -> (r: bool)
        ensures
            r == self@.completed,
    {
        self.completed
    }

    fn find_item(&self, key: &String) -> (r: Option<usize>)
        ensures
            match r {
                Some(i) => find_key(self@.items, key@, 0) == Some(i as int) && i < self@.items.len(),
                None => find_key(self@.items, key@, 0) is None,
            },
    {
        let mut i: usize = 0;
        while i < self.items.len()
            invariant
                i <= self.items@.len(),
                self@.items.len() == self.items@.len(),
                find_key(self@.items, key@, 0) == find_key(self@.items, key@, i as int),
            decreases self.items@.len() - i,
        {
            if self.items[i].key == *key {
                return Some(i);
            }
            i = i + 1;
        }
        None
    }

    /// The index of the item an event refers to, tracking a new item when needed.
    fn item_for_event(&mut self, ev: &JsonValue, kind: Option<ItemKind>) -> (r: usize)
        ensures
            with_item(old(self)@, ev@, kind_opt(kind)) == (final(self)@, r as int),
            r < final(self)@.items.len(),
    {
        let key = item_key(ev, &kind);
        if let Some(i) = self.find_item(&key) {
            return i;
        }
        let output_index: Option<u32> = match ev.get_u64("output_index") {
            Some(n) => if n <= 4294967295u64 { Some(n as u32) } else { None },
            None => None,
        };
        let order = match output_index {
            Some(o) => {
                let bumped = if o == 4294967295u32 { o } else { o + 1 };
                if bumped > self.next_output_index {
                    self.next_output_index = bumped;
                }
                o
            }
            None => {
                let index = self.next_output_index;
                self.next_output_index = if index == 4294967295u32 { index } else { index + 1 };
                index
            }
        };
        let item_id = new_item_id_exec(ev);
        let ghost before = self@;
        let fresh = fresh_item_exec(key, item_id, order, kind);
        let n = self.items.len();
        self.items.push(fresh);
        assert(self@.items =~= before.items.push(fresh@));
        n
    }

    fn capture_item_event(&mut self, ev: &JsonValue)
        ensures
            final(self)@ == capture_item(old(self)@, ev@),
    {
        if let Some(item) = ev.get("item") {
            let kind = item_kind(item);
            let i = self.item_for_event(ev, kind);
            let ghost mid = self@;
            absorb_item_exec(&mut self.items[i], item, true);
            assert(self@.items =~= mid.items.update(i as int, absorb_item(mid.items[i as int], item@, true)));
        }
    }

    fn capture_response(&mut self, response: Option<&JsonValue>)
        ensures
            final(self)@ == capture_response(old(self)@, match response { Some(r) => Some(r@), None => None }),
    {
        if let Some(r) = response {
            if let Some(id) = r.get_str("id") {
                self.response_id = id.clone();
            }
            if let Some(model) = r.get_str("model") {
                self.model = model.clone();
            }
            if let Some(c) = r.get("created_at") {
                if let Some(t) = c.as_i64() {
                    self.created_at = t;
                }
            }
        }
    }

    fn minimal_response(&self, status: &str) -> (r: ResponseShell)
        ensures
            r@ == minimal_shell(self@, status@),
    {
        ResponseShell {
            id: self.response_id.clone(),
            model: self.model.clone(),
            created_at: self.created_at,
            status: owned(status),
            output: None,
            output_text: None,
            usage: None,
            previous_response_id: None,
            error: None,
        }
    }

    fn ensure_response_started(&mut self) -> (r: Vec<SseEvent>)
        ensures
            started(old(self)@) == (final(self)@, events_view(r@)),
    {
        let mut events: Vec<SseEvent> = Vec::new();
        let ghost s0 = self@;
        if !self.created_sent {
            events.push(SseEvent::Created { response: self.minimal_response("in_progress") });
        }
        if !self.in_progress_sent {
            events.push(SseEvent::InProgress { response: self.minimal_response("in_progress") });
        }
        self.created_sent = true;
        self.in_progress_sent = true;
        assert(events_view(events@) =~= started(s0).1);
        events
    }

    fn response_shell_from_value(&self, response: Option<&JsonValue>, default_status: &str) -> (r: ResponseShell)
        ensures
            r@ == shell_from(self@, match response { Some(v) => Some(v@), None => None }, default_status@),
    {
        let mut shell = self.minimal_response(default_status);
        if let Some(r) = response {
            if let Some(st) = r.get_str("status") {
                shell.status = st.clone();
            }
            if let Some(t) = r.get_str("output_text") {
                shell.output_text = Some(t.clone());
            }
            if let Some(u) = r.get("usage") {
                shell.usage = usage_from_json(u);
            }
            if let Some(p) = r.get_str("previous_response_id") {
                shell.previous_response_id = Some(p.clone());
            }
        }
        shell
    }
}

/// Token usage read from an upstream `usage` object.
pub fn usage_from_json(u: &JsonValue) -> (r: Option<Usage>)
    ensures
        r == usage_of(u@),
{
    if !u.is_object() {
        return None;
    }
    match (u.get_u64("input_tokens"), u.get_u64("output_tokens"), u.get_u64("total_tokens")) {
        (Some(i), Some(o), Some(t)) => {
            if i <= 4294967295u64 && o <= 4294967295u64 && t <= 4294967295u64 {
                Some(Usage { input_tokens: i as u32, output_tokens: o as u32, total_tokens: t as u32 })
            } else {
                None
            }
        }
        _ => None,
    }
}

fn str_or_empty_exec(ev: &JsonValue, key: &str) -> (r: String)
    ensures
        r@ == str_or_empty(ev@, key@),
{
    match ev.get_str(key) {
        Some(x) => x.clone(),
        None => String::new(),
    }
}

fn role_default(it: &mut ItemState)
    ensures
        final(it)@ == (ItemV { role: Some(role_or_assistant(old(it)@)), ..old(it)@ }),
{
    if it.role.is_none() {
        it.role = Some(owned("assistant"));
    }
}

fn upd_text_delta_exec(it: &mut ItemState, ev: &JsonValue)
    ensures
        final(it)@ == on_text_delta(old(it)@, str_or_empty(ev@, "delta"@)),
{
    let d = str_or_empty_exec(ev, "delta");
    it.kind = ItemKind::Message;
    role_default(it);
    it.text.append(d.as_str());
    it.text_seen = true;
}

fn upd_text_done_exec(it: &mut ItemState, ev: &JsonValue)
    ensures
        final(it)@ == upd_text_done(old(it)@, ev@),
{
    it.kind = ItemKind::Message;
    role_default(it);
    if let Some(t) = ev.get_str("text") {
        it.text = t.clone();
        it.text_seen = true;
    }
}

fn upd_part_done_exec(it: &mut ItemState, ev: &JsonValue)
    ensures
        final(it)@ == upd_part_done(old(it)@, ev@),
{
    if let Some(p) = ev.get("part") {
        if let Some(t) = part_text_exec(p) {
            it.text = t;
            it.text_seen = true;
        }
    }
}

fn upd_reasoning_delta_exec(it: &mut ItemState, ev: &JsonValue)
    ensures
        final(it)@ == upd_reasoning_delta(old(it)@, ev@),
{
    let d = str_or_empty_exec(ev, "delta");
    it.kind = ItemKind::Reasoning;
    it.reasoning_text.append(d.as_str());
    let ghost before = it.reasoning_deltas@;
    it.reasoning_deltas.push(d);
    assert(strs(it.reasoning_deltas@) =~= strs(before).push(str_or_empty(ev@, "delta"@)));
}

fn upd_summary_text_done_exec(it: &mut ItemState, ev: &JsonValue)
    ensures
        final(it)@ == upd_summary_text_done(old(it)@, ev@),
{
    it.kind = ItemKind::Reasoning;
    if let Some(t) = ev.get_str("text") {
        it.reasoning_text = t.clone();
        if it.reasoning_deltas.len() == 0 && !t.as_str().is_empty() {
            let ghost before = it.reasoning_deltas@;
            it.reasoning_deltas.push(t.clone());
            assert(strs(it.reasoning_deltas@) =~= strs(before).push(t@));
        }
    }
}

fn upd_summary_part_done_exec(it: &mut ItemState, ev: &JsonValue)
    ensures
        final(it)@ == upd_summary_part_done(old(it)@, ev@),
{
    it.kind = ItemKind::Reasoning;
    if let Some(p) = ev.get("part") {
        if let Some(t) = summary_part_text_exec(p) {
            it.reasoning_text = t;
        }
    }
}

fn upd_args_delta_exec(it: &mut ItemState, ev: &JsonValue)
    ensures
        final(it)@ == upd_args_delta(old(it)@, ev@),
{
    let d = str_or_empty_exec(ev, "delta");
    it.kind = ItemKind::FunctionCall;
    it.arguments.append(d.as_str());
    it.arguments_seen = true;
}

fn upd_args_done_exec(it: &mut ItemState, ev: &JsonValue)
    ensures
        final(it)@ == upd_args_done(old(it)@, ev@),
{
    it.kind = ItemKind::FunctionCall;
    if let Some(a) = ev.get_str("arguments") {
        it.arguments = a.clone();
        it.arguments_seen = true;
    }
    if let Some(n) = ev.get_str("name") {
        it.name = Some(n.clone());
    }
}

fn upd_input_delta_exec(it: &mut ItemState, ev: &JsonValue)
    ensures
        final(it)@ == upd_input_delta(old(it)@, ev@),
{
    let d = str_or_empty_exec(ev, "delta");
    it.kind = ItemKind::CustomToolCall;
    it.custom_input.append(d.as_str());
    it.custom_input_seen = true;
}

fn upd_input_done_exec(it: &mut ItemState, ev: &JsonValue)
    ensures
        final(it)@ == upd_input_done(old(it)@, ev@),
{
    it.kind = ItemKind::CustomToolCall;
    if let Some(v) = ev.get_str("input") {
        it.custom_input = v.clone();
        it.custom_input_seen = true;
    }
}

/// Applies an item-level upstream event of type `t` to the item it refers to.
fn apply_item_event(t: &str, it: &mut ItemState, ev: &JsonValue)
    ensures
        final(it)@ == item_update(t@, old(it)@, ev@),
{
    reveal(item_update);
    if str_eq(t, "response.content_part.added") {
        role_default(it);
    } else if str_eq(t, "response.output_text.delta") {
        upd_text_delta_exec(it, ev);
    } else if str_eq(t, "response.output_text.done") {
        upd_text_done_exec(it, ev);
    } else if str_eq(t, "response.content_part.done") {
        upd_part_done_exec(it, ev);
    } else if str_eq(t, "response.reasoning_summary_part.added") {
        it.kind = ItemKind::Reasoning;
    } else if str_eq(t, "response.reasoning_summary_text.delta") || str_eq(t, "response.reasoning_text.delta") {
        upd_reasoning_delta_exec(it, ev);
    } else if str_eq(t, "response.reasoning_summary_text.done") {
        upd_summary_text_done_exec(it, ev);
    } else if str_eq(t, "response.reasoning_summary_part.done") {
        upd_summary_part_done_exec(it, ev);
    } else if str_eq(t, "response.function_call_arguments.delta") {
        upd_args_delta_exec(it, ev);
    } else if str_eq(t, "response.function_call_arguments.done") {
        upd_args_done_exec(it, ev);
    } else if str_eq(t, "response.custom_tool_call_input.delta") {
        upd_input_delta_exec(it, ev);
    } else {
        upd_input_done_exec(it, ev);
    }
}

/// The item kind an item-level event implies, if `t` is one.
fn event_kind_exec(t: &str) -> (r: Option<ItemKind>)
    ensures
        kind_opt(r) == event_kind(t@),
{
    reveal(event_kind);
    if str_eq(t, "response.content_part.added") || str_eq(t, "response.output_text.delta")
        || str_eq(t, "response.output_text.done") || str_eq(t, "response.content_part.done") {
        Some(ItemKind::Message)
    } else if str_eq(t, "response.reasoning_summary_part.added") || str_eq(t, "response.reasoning_summary_text.delta")
        || str_eq(t, "response.reasoning_text.delta") || str_eq(t, "response.reasoning_summary_text.done")
        || str_eq(t, "response.reasoning_summary_part.done") {
        Some(ItemKind::Reasoning)
    } else if str_eq(t, "response.function_call_arguments.delta") || str_eq(t, "response.function_call_arguments.done") {
        Some(ItemKind::FunctionCall)
    } else if str_eq(t, "response.custom_tool_call_input.delta") || str_eq(t, "response.custom_tool_call_input.done") {
        Some(ItemKind::CustomToolCall)
    } else {
        None
    }
}

fn or_empty_exec(o: &Option<String>) -> (r: String)
    ensures
        r@ == or_empty(opt_str(*o)),
{
    match o {
        Some(s) => s.clone(),
        None => String::new(),
    }
}

impl ItemState {
    fn id_for(&self, prefix: &str) -> (r: String)
        ensures
            r@ == item_id(self@, prefix@),
    {
        match &self.id {
            Some(id) => id.clone(),
            None => {
                let mut s = concat2(prefix, "_");
                push_decimal(&mut s, self.order as u64);
                s
            }
        }
    }

    fn role_or_assistant(&self) -> (r: String)
        ensures
            r@ == role_or_assistant(self@),
    {
        match &self.role {
            Some(r) => r.clone(),
            None => owned("assistant"),
        }
    }

    fn message_output_item(&self) -> (r: OutputItem)
        ensures
            r@ == message_item(self@),
    {
        let mut content: Vec<ContentPart> = Vec::new();
        content.push(ContentPart::OutputText(self.text.clone()));
        let r = OutputItem::Message {
            id: self.id_for("msg"),
            status: owned("completed"),
            role: self.role_or_assistant(),
            content,
        };
        assert(r@->Message_content =~= seq![ContentPartV::OutputText(self@.text)]);
        r
    }

    fn reasoning_output_item(&self) -> (r: OutputItem)
        ensures
            r@ == reasoning_item(self@),
    {
        let mut summary: Vec<String> = Vec::new();
        summary.push(self.reasoning_text.clone());
        let r = OutputItem::Reasoning { id: self.id_for("rs"), summary, status: None };
        assert(r@->Reasoning_summary =~= seq![self@.reasoning_text]);
        r
    }

    fn function_output_item(&self) -> (r: OutputItem)
        ensures
            r@ == function_item(self@),
    {
        OutputItem::FunctionCall {
            id: self.id_for("fc"),
            status: owned("completed"),
            call_id: or_empty_exec(&self.call_id),
            name: or_empty_exec(&self.name),
            arguments: self.arguments.clone(),
        }
    }

    fn custom_tool_output_item(&self) -> (r: OutputItem)
        ensures
            r@ == custom_tool_item(self@),
    {
        OutputItem::CustomToolCall {
            id: self.id_for("ctc"),
            status: owned("completed"),
            call_id: or_empty_exec(&self.call_id),
            name: or_empty_exec(&self.name),
            input: self.custom_input.clone(),
        }
    }

    fn message_events(&self) -> (r: Vec<SseEvent>)
        ensures
            events_view(r@) == message_events(self@),
    {
        let oi = self.order;
        let mut evs: Vec<SseEvent> = Vec::new();
        let added = OutputItem::Message {
            id: self.id_for("msg"),
            status: owned("in_progress"),
            role: self.role_or_assistant(),
            content: Vec::new(),
        };
        assert(added@->Message_content =~= Seq::<ContentPartV>::empty());
        evs.push(SseEvent::OutputItemAdded { output_index: oi, item: added });
        evs.push(SseEvent::ContentPartAdded {
            item_id: self.id_for("msg"), output_index: oi, content_index: 0, part: ContentPart::OutputText(String::new()),
        });
        evs.push(SseEvent::OutputTextDelta { item_id: self.id_for("msg"), output_index: oi, content_index: 0, delta: self.text.clone() });
        evs.push(SseEvent::OutputTextDone { item_id: self.id_for("msg"), output_index: oi, content_index: 0, text: self.text.clone() });
        evs.push(SseEvent::ContentPartDone {
            item_id: self.id_for("msg"), output_index: oi, content_index: 0, part: ContentPart::OutputText(self.text.clone()),
        });
        evs.push(SseEvent::OutputItemDone { output_index: oi, item: self.message_output_item() });
        assert(events_view(evs@) =~= message_events(self@));
        evs
    }

    fn reasoning_events(&self) -> (r: Vec<SseEvent>)
        ensures
            events_view(r@) == reasoning_events(self@),
    {
        let oi = self.order;
        let ghost id = item_id(self@, "rs"@);
        let mut evs: Vec<SseEvent> = Vec::new();
        let added = OutputItem::Reasoning { id: self.id_for("rs"), summary: Vec::new(), status: Some(owned("in_progress")) };
        assert(added@->Reasoning_summary =~= Seq::<Seq<char>>::empty());
        evs.push(SseEvent::OutputItemAdded { output_index: oi, item: added });
        evs.push(SseEvent::ReasoningSummaryPartAdded { item_id: self.id_for("rs"), output_index: oi, summary_index: 0, part: String::new() });
        let ghost head = events_view(evs@);
        assert(head =~= seq![
            SseEventV::OutputItemAdded {
                output_index: oi,
                item: OutputItemV::Reasoning { id, summary: Seq::empty(), status: Some("in_progress"@) },
            },
            SseEventV::ReasoningSummaryPartAdded { item_id: id, output_index: oi, summary_index: 0, part: Seq::empty() },
        ]);
        let deltas: Vec<String> = if self.reasoning_deltas.len() == 0 {
            let mut v: Vec<String> = Vec::new();
            v.push(self.reasoning_text.clone());
            assert(strs(v@) =~= seq![self@.reasoning_text]);
            v
        } else {
            clone_strings(&self.reasoning_deltas)
        };
        assert(strs(deltas@) == replayed_deltas(self@));
        let mut i: usize = 0;
        while i < deltas.len()
            invariant
                i <= deltas@.len(),
                strs(deltas@) == replayed_deltas(self@),
                events_view(evs@) == head + delta_events(strs(deltas@).take(i as int), id, oi),
                id == item_id(self@, "rs"@),
                oi == self@.order,
            decreases deltas@.len() - i,
        {
            assert(strs(deltas@).take(i + 1).drop_last() =~= strs(deltas@).take(i as int));
            if !deltas[i].as_str().is_empty() {
                let ghost before = events_view(evs@);
                evs.push(SseEvent::ReasoningSummaryTextDelta {
                    item_id: self.id_for("rs"), output_index: oi, summary_index: 0, delta: deltas[i].clone(),
                });
                assert(events_view(evs@) =~= before.push(events_view(evs@).last()));
            } else {
                assert(strs(deltas@).take(i + 1).last().len() == 0);
            }
            i = i + 1;
        }
        assert(strs(deltas@).take(deltas@.len() as int) =~= strs(deltas@));
        let ghost mid = events_view(evs@);
        assert(mid == head + delta_events(replayed_deltas(self@), id, oi));
        evs.push(SseEvent::ReasoningSummaryTextDone {
            item_id: self.id_for("rs"), output_index: oi, summary_index: 0, text: self.reasoning_text.clone(),
        });
        evs.push(SseEvent::ReasoningSummaryPartDone {
            item_id: self.id_for("rs"), output_index: oi, summary_index: 0, part: self.reasoning_text.clone(),
        });
        evs.push(SseEvent::OutputItemDone { output_index: oi, item: self.reasoning_output_item() });
        assert(events_view(evs@) =~= reasoning_events(self@));
        evs
    }

    fn function_events(&self) -> (r: Vec<SseEvent>)
        ensures
            events_view(r@) == function_events(self@),
    {
        let oi = self.order;
        let mut evs: Vec<SseEvent> = Vec::new();
        evs.push(SseEvent::OutputItemAdded {
            output_index: oi,
            item: OutputItem::FunctionCall {
                id: self.id_for("fc"),
                status: owned("in_progress"),
                call_id: or_empty_exec(&self.call_id),
                name: or_empty_exec(&self.name),
                arguments: String::new(),
            },
        });
        evs.push(SseEvent::FunctionCallArgumentsDelta { item_id: self.id_for("fc"), output_index: oi, delta: self.arguments.clone() });
        evs.push(SseEvent::FunctionCallArgumentsDone {
            item_id: self.id_for("fc"), output_index: oi, arguments: self.arguments.clone(), name: clone_opt(&self.name),
        });
        evs.push(SseEvent::OutputItemDone { output_index: oi, item: self.function_output_item() });
        assert(events_view(evs@) =~= function_events(self@));
        evs
    }

    fn custom_tool_events(&self) -> (r: Vec<SseEvent>)
        ensures
            events_view(r@) == custom_tool_events(self@),
    {
        let oi = self.order;
        let mut evs: Vec<SseEvent> = Vec::new();
        evs.push(SseEvent::OutputItemAdded {
            output_index: oi,
            item: OutputItem::CustomToolCall {
                id: self.id_for("ctc"),
                status: owned("in_progress"),
                call_id: or_empty_exec(&self.call_id),
                name: or_empty_exec(&self.name),
                input: String::new(),
            },
        });
        evs.push(SseEvent::CustomToolCallInputDelta { item_id: self.id_for("ctc"), output_index: oi, delta: self.custom_input.clone() });
        evs.push(SseEvent::CustomToolCallInputDone { item_id: self.id_for("ctc"), output_index: oi, input: self.custom_input.clone() });
        evs.push(SseEvent::OutputItemDone { output_index: oi, item: self.custom_tool_output_item() });
        assert(events_view(evs@) =~= custom_tool_events(self@));
        evs
    }

    fn missing_field_error(&self, payload_seen: bool, payload_msg: &str) -> (r: Option<ApiError>)
        ensures
            match r {
                Some(e) => missing_field(self@, payload_seen, payload_msg@) == Some(e@),
                None => missing_field(self@, payload_seen, payload_msg@) is None,
            },
    {
        if self.call_id.is_none() {
            Some(ApiError::stream_interrupted_with_details(concat2("missing call_id for Responses output item ", self.key.as_str())))
        } else if self.name.is_none() {
            Some(ApiError::stream_interrupted_with_details(concat2("missing name for Responses output item ", self.key.as_str())))
        } else if !payload_seen {
            Some(ApiError::stream_interrupted_with_details(concat2(payload_msg, self.key.as_str())))
        } else {
            None
        }
    }

    /// The events and output item this item contributes at completion.
    fn completion_step(&self, has_tool: bool, has_text: bool) -> (r: Result<(Vec<SseEvent>, Vec<OutputItem>), ApiError>)
        ensures
            match r {
                Ok((evs, outs)) => item_step(self@, has_tool, has_text) == Ok::<(Seq<SseEventV>, Seq<OutputItemV>), ApiErrorV>((events_view(evs@), items_view(outs@))),
                Err(e) => item_step(self@, has_tool, has_text) == Err::<(Seq<SseEventV>, Seq<OutputItemV>), ApiErrorV>(e@),
            },
    {
        let nothing: (Vec<SseEvent>, Vec<OutputItem>) = (Vec::new(), Vec::new());
        assert(events_view(nothing.0@) =~= Seq::<SseEventV>::empty());
        assert(items_view(nothing.1@) =~= Seq::<OutputItemV>::empty());
        match &self.kind {
            ItemKind::Reasoning => {
                if is_blank(self.reasoning_text.as_str()) {
                    Ok(nothing)
                } else {
                    let mut outs: Vec<OutputItem> = Vec::new();
                    outs.push(self.reasoning_output_item());
                    assert(items_view(outs@) =~= seq![reasoning_item(self@)]);
                    Ok((self.reasoning_events(), outs))
                }
            }
            ItemKind::Message => {
                if is_blank(self.text.as_str()) && (has_tool || has_text) {
                    Ok(nothing)
                } else {
                    let mut outs: Vec<OutputItem> = Vec::new();
                    outs.push(self.message_output_item());
                    assert(items_view(outs@) =~= seq![message_item(self@)]);
                    Ok((self.message_events(), outs))
                }
            }
            ItemKind::FunctionCall => {
                match self.missing_field_error(self.arguments_seen, "missing arguments for Responses function call ") {
                    Some(e) => Err(e),
                    None => {
                        let mut outs: Vec<OutputItem> = Vec::new();
                        outs.push(self.function_output_item());
                        assert(items_view(outs@) =~= seq![function_item(self@)]);
                        Ok((self.function_events(), outs))
                    }
                }
            }
            ItemKind::CustomToolCall => {
                match self.missing_field_error(self.custom_input_seen, "missing input for Responses custom tool call ") {
                    Some(e) => Err(e),
                    None => {
                        let mut outs: Vec<OutputItem> = Vec::new();
                        outs.push(self.custom_tool_output_item());
                        assert(items_view(outs@) =~= seq![custom_tool_item(self@)]);
                        Ok((self.custom_tool_events(), outs))
                    }
                }
            }
            ItemKind::Other(_) => Ok(nothing),
        }
    }
}

fn before_exec(x: &ItemState, y: &ItemState) -> (r: bool)
    ensures
        r == item_before(x@, y@),
{
    x.order < y.order || (x.order == y.order && str_less(x.key.as_str(), y.key.as_str()))
}

proof fn lemma_min_index_bounds(items: Seq<ItemV>)
    requires
        items.len() > 0,
    ensures
        0 <= min_index(items) < items.len(),
    decreases items.len(),
{
    if items.len() > 1 {
        lemma_min_index_bounds(items.drop_last());
    }
}

pub open spec fn picked(items: Seq<ItemV>, idx: Seq<usize>) -> Seq<ItemV> {
    Seq::new(idx.len(), |k: int| items[idx[k] as int])
}

impl ResponsesCanonicalizer {
    fn min_position(&self, remaining: &Vec<usize>) -> (r: usize)
        requires
            remaining@.len() > 0,
            forall|k: int| 0 <= k < remaining@.len() ==> (#[trigger] remaining@[k]) < self@.items.len(),
        ensures
            r as int == min_index(picked(self@.items, remaining@)),
            r < remaining@.len(),
    {
        let ghost rv = picked(self@.items, remaining@);
        let mut m: usize = 0;
        let mut j: usize = 1;
        assert(rv.take(1).len() == 1);
        while j < remaining.len()
            invariant
                rv == picked(self@.items, remaining@),
                forall|k: int| 0 <= k < remaining@.len() ==> (#[trigger] remaining@[k]) < self@.items.len(),
                self@.items.len() == self.items@.len(),
                1 <= j <= remaining@.len(),
                m < j,
                m as int == min_index(rv.take(j as int)),
            decreases remaining@.len() - j,
        {
            assert(rv.take(j + 1).drop_last() =~= rv.take(j as int));
            assert(rv.take(j + 1).last() == rv[j as int]);
            assert(rv.take(j + 1)[m as int] == rv[m as int]);
            let a = remaining[j];
            let b = remaining[m];
            assert(self@.items[a as int] == self.items@[a as int]@);
            if before_exec(&self.items[a], &self.items[b]) {
                m = j;
            }
            j = j + 1;
        }
        assert(rv.take(remaining@.len() as int) =~= rv);
        m
    }

    /// The indices of the tracked items in emission order.
    fn ordered_item_indices(&self) -> (r: Vec<usize>)
        ensures
            picked(self@.items, r@) == sorted_items(self@.items),
            forall|k: int| 0 <= k < r@.len() ==> (#[trigger] r@[k]) < self@.items.len(),
    {
        let n = self.items.len();
        let mut remaining: Vec<usize> = Vec::new();
        let mut i: usize = 0;
        while i < n
            invariant
                n == self.items@.len(),
                n == self@.items.len(),
                i <= n,
                remaining@.len() == i,
                forall|k: int| 0 <= k < i ==> (#[trigger] remaining@[k]) == k,
            decreases n - i,
        {
            remaining.push(i);
            i = i + 1;
        }
        assert(picked(self@.items, remaining@) =~= self@.items);
        let mut order: Vec<usize> = Vec::new();
        assert(picked(self@.items, order@) =~= Seq::<ItemV>::empty());
        while remaining.len() > 0
            invariant
                n == self@.items.len(),
                forall|k: int| 0 <= k < remaining@.len() ==> (#[trigger] remaining@[k]) < n,
                forall|k: int| 0 <= k < order@.len() ==> (#[trigger] order@[k]) < n,
                sorted_items(self@.items) == picked(self@.items, order@) + sorted_items(picked(self@.items, remaining@)),
            decreases remaining@.len(),
        {
            let ghost rv = picked(self@.items, remaining@);
            let pos = self.min_position(&remaining);
            proof { lemma_min_index_bounds(rv); }
            let ghost before_order = order@;
            let ghost before_rem = remaining@;
            let chosen = remaining.remove(pos);
            order.push(chosen);
            assert(picked(self@.items, remaining@) =~= rv.remove(pos as int));
            assert(picked(self@.items, order@) =~= picked(self@.items, before_order).push(rv[pos as int]));
            assert(sorted_items(rv) == seq![rv[pos as int]] + sorted_items(rv.remove(pos as int)));
            assert(picked(self@.items, order@) + sorted_items(picked(self@.items, remaining@))
                =~= picked(self@.items, before_order) + sorted_items(rv));
        }
        assert(sorted_items(picked(self@.items, remaining@)) =~= Seq::<ItemV>::empty());
        assert(picked(self@.items, order@) + Seq::<ItemV>::empty() =~= picked(self@.items, order@));
        order
    }
}


proof fn lemma_steps_err_persists(items: Seq<ItemV>, j: int, has_tool: bool, has_text: bool)
    requires
        0 <= j <= items.len(),
        items_steps(items.take(j), has_tool, has_text) is Err,
    ensures
        items_steps(items, has_tool, has_text) == items_steps(items.take(j), has_tool, has_text),
    decreases items.len() - j,
{
    if j < items.len() {
        assert(items.take(j + 1).drop_last() =~= items.take(j));
        lemma_steps_err_persists(items, j + 1, has_tool, has_text);
    } else {
        assert(items.take(j) =~= items);
    }
}

fn content_text_exec(ps: &Vec<ContentPart>) -> (r: String)
    ensures
        r@ == content_text(parts(ps@)),
{
    let mut out = String::new();
    let mut i: usize = 0;
    while i < ps.len()
        invariant
            i <= ps@.len(),
            out@ == content_text(parts(ps@).take(i as int)),
        decreases ps@.len() - i,
    {
        match &ps[i] {
            ContentPart::OutputText(t) => out.append(t.as_str()),
            ContentPart::Refusal(t) => out.append(t.as_str()),
        }
        assert(parts(ps@).take(i + 1).drop_last() =~= parts(ps@).take(i as int));
        i = i + 1;
    }
    assert(parts(ps@).take(ps@.len() as int) =~= parts(ps@));
    out
}

/// The `output_text` of a response: the texts of its message items, joined.
fn output_text_exec(items: &Vec<OutputItem>) -> (r: String)
    ensures
        r@ == output_text_of(items_view(items@)),
{
    let mut out = String::new();
    let mut i: usize = 0;
    while i < items.len()
        invariant
            i <= items@.len(),
            out@ == output_text_of(items_view(items@).take(i as int)),
        decreases items@.len() - i,
    {
        if let OutputItem::Message { content, .. } = &items[i] {
            let t = content_text_exec(content);
            out.append(t.as_str());
        }
        assert(items_view(items@).take(i + 1).drop_last() =~= items_view(items@).take(i as int));
        i = i + 1;
    }
    assert(items_view(items@).take(items@.len() as int) =~= items_view(items@));
    out
}

pub open spec fn opt_json(o: Option<&JsonValue>) -> Option<JsonView> {
    match o {
        Some(v) => Some(v@),
        None => None,
    }
}

pub open spec fn events_result(r: Result<Vec<SseEvent>, ApiError>) -> Result<Seq<SseEventV>, ApiErrorV> {
    match r {
        Ok(evs) => Ok(events_view(evs@)),
        Err(e) => Err(e@),
    }
}

pub open spec fn outcome_result(r: Result<CanonicalizerOutcome, ApiError>) -> Result<OutcomeV, ApiErrorV> {
    match r {
        Ok(o) => Ok(o@),
        Err(e) => Err(e@),
    }
}

impl ResponsesCanonicalizer {
    fn any_tool(&self, order: &Vec<usize>) -> (r: bool)
        requires
            forall|k: int| 0 <= k < order@.len() ==> (#[trigger] order@[k]) < self@.items.len(),
        ensures
            r == exists|i: int| 0 <= i < picked(self@.items, order@).len() && is_tool(#[trigger] picked(self@.items, order@)[i].kind),
    {
        let ghost ps = picked(self@.items, order@);
        let mut k: usize = 0;
        while k < order.len()
            invariant
                ps == picked(self@.items, order@),
                self@.items.len() == self.items@.len(),
                forall|j: int| 0 <= j < order@.len() ==> (#[trigger] order@[j]) < self@.items.len(),
                k <= order@.len(),
                forall|i: int| 0 <= i < k ==> !is_tool(#[trigger] ps[i].kind),
            decreases order@.len() - k,
        {
            let idx = order[k];
            assert(ps[k as int] == self.items@[idx as int]@);
            let tool = match &self.items[idx].kind {
                ItemKind::FunctionCall => true,
                ItemKind::CustomToolCall => true,
                _ => false,
            };
            if tool {
                assert(is_tool(ps[k as int].kind));
                return true;
            }
            k = k + 1;
        }
        false
    }

    fn any_text(&self, order: &Vec<usize>) -> (r: bool)
        requires
            forall|k: int| 0 <= k < order@.len() ==> (#[trigger] order@[k]) < self@.items.len(),
        ensures
            r == exists|i: int| 0 <= i < picked(self@.items, order@).len() && nonblank_non_tool(#[trigger] picked(self@.items, order@)[i]),
    {
        let ghost ps = picked(self@.items, order@);
        let mut k: usize = 0;
        while k < order.len()
            invariant
                ps == picked(self@.items, order@),
                self@.items.len() == self.items@.len(),
                forall|j: int| 0 <= j < order@.len() ==> (#[trigger] order@[j]) < self@.items.len(),
                k <= order@.len(),
                forall|i: int| 0 <= i < k ==> !nonblank_non_tool(#[trigger] ps[i]),
            decreases order@.len() - k,
        {
            let idx = order[k];
            let it = &self.items[idx];
            assert(ps[k as int] == it@);
            let found = match &it.kind {
                ItemKind::Message => !is_blank(it.text.as_str()),
                ItemKind::Reasoning => !is_blank(it.reasoning_text.as_str()),
                _ => false,
            };
            if found {
                return true;
            }
            k = k + 1;
        }
        false
    }

    /// Completes the response: every tracked item in order, then `response.completed`.
    fn finalize(&mut self, response: Option<&JsonValue>) -> (r: Result<Vec<SseEvent>, ApiError>)
        ensures
            finalize_spec(old(self)@, opt_json(response)) == (final(self)@, events_result(r)),
    {
        if self.completed {
            let none: Vec<SseEvent> = Vec::new();
            assert(events_view(none@) =~= Seq::<SseEventV>::empty());
            return Ok(none);
        }
        self.completed = true;
        let mut events = self.ensure_response_started();
        let ghost s2 = self@;
        let ghost start = events_view(events@);
        let order = self.ordered_item_indices();
        let ghost ps = picked(s2.items, order@);
        let has_tool = self.any_tool(&order);
        let has_text = self.any_text(&order);
        let mut step_events: Vec<SseEvent> = Vec::new();
        let mut outputs: Vec<OutputItem> = Vec::new();
        assert(events_view(step_events@) =~= Seq::<SseEventV>::empty());
        assert(items_view(outputs@) =~= Seq::<OutputItemV>::empty());
        assert(ps.take(0) =~= Seq::<ItemV>::empty());
        let mut k: usize = 0;
        while k < order.len()
            invariant
                self@ == s2,
                self@.items.len() == self.items@.len(),
                ps == picked(s2.items, order@),
                ps == sorted_items(s2.items),
                s2 == started(CanonV { completed: true, ..old(self)@ }).0,
                !old(self)@.completed,
                has_tool == exists|i: int| 0 <= i < ps.len() && is_tool(#[trigger] ps[i].kind),
                has_text == exists|i: int| 0 <= i < ps.len() && nonblank_non_tool(#[trigger] ps[i]),
                forall|j: int| 0 <= j < order@.len() ==> (#[trigger] order@[j]) < s2.items.len(),
                k <= order@.len(),
                items_steps(ps.take(k as int), has_tool, has_text)
                    == Ok::<(Seq<SseEventV>, Seq<OutputItemV>), ApiErrorV>((events_view(step_events@), items_view(outputs@))),
            decreases order@.len() - k,
        {
            let idx = order[k];
            assert(ps.take(k + 1).drop_last() =~= ps.take(k as int));
            assert(ps.take(k + 1).last() == self.items@[idx as int]@);
            match self.items[idx].completion_step(has_tool, has_text) {
                Err(e) => {
                    assert(items_steps(ps.take(k + 1), has_tool, has_text) == Err::<(Seq<SseEventV>, Seq<OutputItemV>), ApiErrorV>(e@));
                    proof { lemma_steps_err_persists(ps, k + 1, has_tool, has_text); }
                    return Err(e);
                }
                Ok((e2, o2)) => {
                    let mut e2 = e2;
                    let mut o2 = o2;
                    let ghost ev0 = events_view(step_events@);
                    let ghost out0 = items_view(outputs@);
                    let ghost ev1 = events_view(e2@);
                    let ghost out1 = items_view(o2@);
                    step_events.append(&mut e2);
                    outputs.append(&mut o2);
                    assert(events_view(step_events@) =~= ev0 + ev1);
                    assert(items_view(outputs@) =~= out0 + out1);
                }
            }
            k = k + 1;
        }
        assert(ps.take(order@.len() as int) =~= ps);
        let text = output_text_exec(&outputs);
        let mut done = self.response_shell_from_value(response, "completed");
        done.output_text = Some(text);
        done.output = Some(outputs);
        let ghost mid = events_view(step_events@);
        events.append(&mut step_events);
        let ghost done_v = done@;
        events.push(SseEvent::Completed { response: done });
        assert(events_view(events@) =~= start + mid + seq![SseEventV::Completed { response: done_v }]);
        Ok(events)
    }
}

fn empty_outcome() -> (r: CanonicalizerOutcome)
    ensures
        r@ == (OutcomeV { events: Seq::empty(), completed_response: None }),
{
    let r = CanonicalizerOutcome { events: Vec::new(), completed_response: None };
    assert(r@.events =~= Seq::<SseEventV>::empty());
    r
}

fn clone_response(r: Option<&JsonValue>) -> (c: Option<JsonValue>)
    ensures
        match c { Some(v) => Some(v@), None => None::<JsonView> } == opt_json(r),
{
    match r {
        Some(v) => Some(v.deep_clone()),
        None => None,
    }
}

impl ResponsesCanonicalizer {
    /// Absorbs one upstream event and returns the canonical events it releases:
    /// the lifecycle events on `response.created` / `response.in_progress`,
    /// everything on `response.completed`, the failure on `response.failed`, and
    /// nothing for item-level events, which are only gathered. An event of an
    /// unknown type, or without a type, is recorded as ignored.
    pub fn process_event(&mut self, event: &JsonValue) -> (r: Result<CanonicalizerOutcome, ApiError>)
        ensures
            process_spec(old(self)@, event@) == (final(self)@, outcome_result(r)),
    {
        let t = match event.get_str("type") {
            None => {
                self.ignored_events.push(owned("<missing type>"));
                proof { reveal_strlit("<missing type>"); }
                assert(strs(self.ignored_events@) =~= strs(old(self).ignored_events@).push("<missing type>"@));
                return Ok(empty_outcome());
            }
            Some(t) => t,
        };
        let ts = t.as_str();
        if str_eq(ts, "response.created") || str_eq(ts, "response.in_progress") {
            self.capture_response(event.get("response"));
            let evs = self.ensure_response_started();
            return Ok(CanonicalizerOutcome { events: evs, completed_response: None });
        }
        if str_eq(ts, "response.output_item.added") {
            self.capture_item_event(event);
            return Ok(empty_outcome());
        }
        let kind = event_kind_exec(ts);
        if kind.is_some() {
            let i = self.item_for_event(event, kind);
            let ghost mid = self@;
            apply_item_event(ts, &mut self.items[i], event);
            assert(self@.items =~= mid.items.update(i as int, item_update(t@, mid.items[i as int], event@)));
            return Ok(empty_outcome());
        }
        if str_eq(ts, "response.output_item.done") {
            self.capture_item_event(event);
            let i = self.item_for_event(event, None);
            if let Some(item) = event.get("item") {
                let ghost mid = self@;
                absorb_item_exec(&mut self.items[i], item, false);
                assert(self@.items =~= mid.items.update(i as int, absorb_item(mid.items[i as int], item@, false)));
            }
            return Ok(empty_outcome());
        }
        if str_eq(ts, "response.completed") {
            let response = event.get("response");
            self.capture_response(response);
            return match self.finalize(response) {
                Err(e) => Err(e),
                Ok(evs) => Ok(CanonicalizerOutcome { events: evs, completed_response: clone_response(response) }),
            };
        }
        if str_eq(ts, "response.failed") {
            self.completed = true;
            let mut evs = self.ensure_response_started();
            let response = event.get("response");
            let shell = self.response_shell_from_value(response, "failed");
            let ghost before = events_view(evs@);
            let ghost shell_v = shell@;
            evs.push(SseEvent::Failed { response: shell });
            assert(events_view(evs@) =~= before.push(SseEventV::Failed { response: shell_v }));
            return Ok(CanonicalizerOutcome { events: evs, completed_response: clone_response(response) });
        }
        self.ignored_events.push(t.clone());
        assert(strs(self.ignored_events@) =~= strs(old(self).ignored_events@).push(t@));
        Ok(empty_outcome())
    }

    /// Ends the stream: nothing more when a completion or failure was seen,
    /// otherwise the error that the stream ended early.
    pub fn finish_stream(&mut self) -> (r: Result<Vec<SseEvent>, ApiError>)
        ensures
            final(self)@ == old(self)@,
            old(self)@.completed ==> (r matches Ok(evs) && evs@.len() == 0),
            !old(self)@.completed ==> (r matches Err(e) && e@ == interrupted("native Responses stream ended before completion event"@)),
    {
        if self.completed {
            return Ok(Vec::new());
        }
        Err(ApiError::stream_interrupted_with_details(owned("native Responses stream ended before completion event")))
    }
}

// ---------------------------------------------------------------------------
// Laws of the canonical stream.

/// Whether an event announces the response (`response.created` or
/// `response.in_progress`).
pub open spec fn announces(e: SseEventV) -> bool {
    e is Created || e is InProgress
}

proof fn lemma_delta_events_plain(ds: Seq<Seq<char>>, id: Seq<char>, oi: u32)
    ensures
        forall|i: int| 0 <= i < delta_events(ds, id, oi).len() ==> !announces(#[trigger] delta_events(ds, id, oi)[i]),
    decreases ds.len(),
{
    if ds.len() > 0 {
        lemma_delta_events_plain(ds.drop_last(), id, oi);
        let head = delta_events(ds.drop_last(), id, oi);
        assert forall|i: int| 0 <= i < delta_events(ds, id, oi).len() implies !announces(#[trigger] delta_events(ds, id, oi)[i]) by {
            if i < head.len() {
                assert(delta_events(ds, id, oi)[i] == head[i]);
            }
        }
    }
}

proof fn lemma_item_step_plain(it: ItemV, has_tool: bool, has_text: bool)
    ensures
        item_step(it, has_tool, has_text) matches Ok((evs, _)) ==> forall|i: int| 0 <= i < evs.len() ==> !announces(#[trigger] evs[i]),
{
    lemma_delta_events_plain(replayed_deltas(it), item_id(it, "rs"@), it.order);
}

proof fn lemma_items_steps_plain(items: Seq<ItemV>, has_tool: bool, has_text: bool)
    ensures
        items_steps(items, has_tool, has_text) matches Ok((evs, _)) ==> forall|i: int| 0 <= i < evs.len() ==> !announces(#[trigger] evs[i]),
    decreases items.len(),
{
    if items.len() > 0 {
        lemma_items_steps_plain(items.drop_last(), has_tool, has_text);
        lemma_item_step_plain(items.last(), has_tool, has_text);
    }
}

/// The response is announced at most once per stream: an event releases
/// `response.created` (or `response.in_progress`) only while it has not been
/// sent, and the canonicalizer then remembers that it has, for good.
pub proof fn law_response_announced_once(s: CanonV, ev: JsonView)
    ensures
        s.created_sent ==> process_spec(s, ev).0.created_sent,
        s.in_progress_sent ==> process_spec(s, ev).0.in_progress_sent,
        process_spec(s, ev).1 matches Ok(o) ==> forall|i: int| 0 <= i < o.events.len() ==> {
            &&& (o.events[i] is Created ==> !s.created_sent && process_spec(s, ev).0.created_sent)
            &&& (#[trigger] o.events[i] is InProgress ==> !s.in_progress_sent && process_spec(s, ev).0.in_progress_sent)
        },
{
    let s1 = capture_response(s, ev.get("response"@));
    let sc = CanonV { completed: true, ..s1 };
    let order = sorted_items(started(sc).0.items);
    let has_tool = exists|i: int| 0 <= i < order.len() && is_tool(#[trigger] order[i].kind);
    let has_text = exists|i: int| 0 <= i < order.len() && nonblank_non_tool(#[trigger] order[i]);
    lemma_items_steps_plain(order, has_tool, has_text);
}

/// Once a response has completed, a repeated `response.completed` releases no
/// further events.
pub proof fn law_completion_released_once(s: CanonV, ev: JsonView)
    requires
        s.completed,
        ev.get_str("type"@) == Some("response.completed"@),
    ensures
        process_spec(s, ev).1 == Ok::<OutcomeV, ApiErrorV>(OutcomeV { events: Seq::empty(), completed_response: ev.get("response"@) }),
        process_spec(s, ev).0.completed,
{
    reveal(event_kind);
    reveal_strlit("response.completed");
    reveal_strlit("response.created");
    reveal_strlit("response.in_progress");
    reveal_strlit("response.output_item.added");
    reveal_strlit("response.output_item.done");
    reveal_strlit("response.content_part.added");
    reveal_strlit("response.output_text.delta");
    reveal_strlit("response.output_text.done");
    reveal_strlit("response.content_part.done");
    reveal_strlit("response.reasoning_summary_part.added");
    reveal_strlit("response.reasoning_summary_text.delta");
    reveal_strlit("response.reasoning_text.delta");
    reveal_strlit("response.reasoning_summary_text.done");
    reveal_strlit("response.reasoning_summary_part.done");
    reveal_strlit("response.function_call_arguments.delta");
    reveal_strlit("response.function_call_arguments.done");
    reveal_strlit("response.custom_tool_call_input.delta");
    reveal_strlit("response.custom_tool_call_input.done");
    let t = "response.completed"@;
    assert(t[10] != "response.created"@[10]);
    assert(t.len() != "response.in_progress"@.len());
    assert(t != "response.output_item.added"@);
    assert(event_kind(t) is None);
    assert(t != "response.output_item.done"@);
    let s1 = capture_response(s, ev.get("response"@));
    assert(s1.completed);
    assert(finalize_spec(s1, ev.get("response"@)) == (s1, Ok::<Seq<SseEventV>, ApiErrorV>(Seq::empty())));
}

proof fn lemma_min_index_least(items: Seq<ItemV>)
    requires
        items.len() > 0,
    ensures
        0 <= min_index(items) < items.len(),
        forall|j: int| 0 <= j < items.len() ==> items[min_index(items)].order <= #[trigger] items[j].order,
    decreases items.len(),
{
    if items.len() > 1 {
        lemma_min_index_least(items.drop_last());
        let m = min_index(items.drop_last());
        assert forall|j: int| 0 <= j < items.len() implies items[min_index(items)].order <= #[trigger] items[j].order by {
            if j < items.len() - 1 {
                assert(items.drop_last()[j] == items[j]);
            }
        }
    }
}

/// Items are emitted in order of output index, each tracked item exactly once.
pub proof fn law_items_emitted_in_output_order(items: Seq<ItemV>)
    ensures
        sorted_items(items).to_multiset() =~= items.to_multiset(),
        forall|i: int, j: int| 0 <= i < j < sorted_items(items).len() ==> (#[trigger] sorted_items(items)[i]).order <= (#[trigger] sorted_items(items)[j]).order,
    decreases items.len(),
{
    broadcast use vstd::seq_lib::group_to_multiset_ensures;
    if items.len() > 0 {
        lemma_min_index_least(items);
        let m = min_index(items);
        let rest = items.remove(m);
        law_items_emitted_in_output_order(rest);
        let sr = sorted_items(rest);
        assert(sorted_items(items) == seq![items[m]] + sr);
        assert(seq![items[m]] + sr =~= sr.insert(0, items[m]));
        assert((seq![items[m]] + sr).to_multiset() =~= sr.to_multiset().insert(items[m]));
        assert(items.to_multiset() =~= rest.to_multiset().insert(items[m]));
        assert forall|k: int| 0 <= k < sr.len() implies items[m].order <= (#[trigger] sr[k]).order by {
            assert(sr.to_multiset().count(sr[k]) > 0);
            assert(rest.contains(sr[k]));
            let w = choose|w: int| 0 <= w < rest.len() && rest[w] == sr[k];
            if w < m {
                assert(rest[w] == items[w]);
            } else {
                assert(rest[w] == items[w + 1]);
            }
        }
        assert forall|i: int, j: int| 0 <= i < j < sorted_items(items).len() implies (#[trigger] sorted_items(items)[i]).order <= (#[trigger] sorted_items(items)[j]).order by {
            if i == 0 {
                assert(sorted_items(items)[j] == sr[j - 1]);
            } else {
                assert(sorted_items(items)[i] == sr[i - 1]);
                assert(sorted_items(items)[j] == sr[j - 1]);
            }
        }
    }
}

/// The state and the events after a run of upstream events, each processed
/// in turn; the first error ends the run.
pub open spec fn run_events(s: CanonV, evs: Seq<JsonView>) -> (CanonV, Result<Seq<SseEventV>, ApiErrorV>)
    decreases evs.len(),
{
    if evs.len() == 0 {
        (s, Ok(Seq::empty()))
    } else {
        let (s1, r) = run_events(s, evs.drop_last());
        match r {
            Err(e) => (s1, Err(e)),
            Ok(es) => {
                let (s2, o) = process_spec(s1, evs.last());
                match o {
                    Ok(out) => (s2, Ok(es + out.events)),
                    Err(e) => (s2, Err(e)),
                }
            },
        }
    }
}

/// What the events sent so far say of the announcement: nothing before it,
/// then `response.created` and `response.in_progress` first, and never again.
pub open spec fn announced_first(announced: bool, es: Seq<SseEventV>) -> bool {
    if announced {
        &&& es.len() >= 2
        &&& es[0] is Created
        &&& es[1] is InProgress
        &&& forall|i: int| 2 <= i < es.len() ==> !announces(#[trigger] es[i])
    } else {
        es.len() == 0
    }
}

proof fn lemma_step_announces(s: CanonV, ev: JsonView)
    requires
        s.created_sent == s.in_progress_sent,
    ensures
        process_spec(s, ev).0.created_sent == process_spec(s, ev).0.in_progress_sent,
        s.created_sent ==> process_spec(s, ev).0.created_sent,
        process_spec(s, ev).1 matches Ok(o) ==> {
            &&& s.created_sent ==> forall|i: int| 0 <= i < o.events.len() ==> !announces(#[trigger] o.events[i])
            &&& !s.created_sent ==> announced_first(process_spec(s, ev).0.created_sent, o.events)
        },
{
    let s1 = capture_response(s, ev.get("response"@));
    let sc = CanonV { completed: true, ..s1 };
    let order = sorted_items(started(sc).0.items);
    let has_tool = exists|i: int| 0 <= i < order.len() && is_tool(#[trigger] order[i].kind);
    let has_text = exists|i: int| 0 <= i < order.len() && nonblank_non_tool(#[trigger] order[i]);
    lemma_items_steps_plain(order, has_tool, has_text);
    let (s2, o) = process_spec(s, ev);
    match o {
        Ok(out) => {
            if !s.created_sent && s2.created_sent {
                assert(out.events.len() >= 2);
                assert(out.events[0] is Created);
                assert(out.events[1] is InProgress);
            }
        },
        Err(_) => {},
    }
}

proof fn lemma_run_announces(s: CanonV, evs: Seq<JsonView>)
    requires
        !s.created_sent,
        !s.in_progress_sent,
    ensures
        run_events(s, evs).0.created_sent == run_events(s, evs).0.in_progress_sent,
        run_events(s, evs).1 matches Ok(es) ==> announced_first(run_events(s, evs).0.created_sent, es),
    decreases evs.len(),
{
    if evs.len() > 0 {
        lemma_run_announces(s, evs.drop_last());
        let (s1, r) = run_events(s, evs.drop_last());
        lemma_step_announces(s1, evs.last());
        match r {
            Ok(es) => {
                let (s2, o) = process_spec(s1, evs.last());
                match o {
                    Ok(out) => {
                        let all = es + out.events;
                        if s1.created_sent {
                            assert forall|i: int| 2 <= i < all.len() implies !announces(#[trigger] all[i]) by {
                                if i >= es.len() {
                                    assert(all[i] == out.events[i - es.len()]);
                                } else {
                                    assert(all[i] == es[i]);
                                }
                            }
                            assert(all[0] == es[0]);
                            assert(all[1] == es[1]);
                        } else {
                            assert(all =~= out.events);
                        }
                    },
                    Err(_) => {},
                }
            },
            Err(_) => {},
        }
    }
}

/// Over a whole stream, the response is announced first and once: from a
/// fresh canonicalizer, the events of a run of upstream events that all
/// succeed begin with `response.created` then `response.in_progress` (when
/// there are any) and hold neither again.
pub proof fn law_announced_first_and_once(s: CanonV, evs: Seq<JsonView>)
    requires
        !s.created_sent,
        !s.in_progress_sent,
    ensures
        run_events(s, evs).1 matches Ok(es) ==> {
            &&& es.len() > 0 ==> es.len() >= 2 && es[0] is Created && es[1] is InProgress
            &&& forall|i: int| 2 <= i < es.len() ==> !announces(#[trigger] es[i])
        },
{
    lemma_run_announces(s, evs);
}

/// Once the response has completed (or failed), it stays so whatever event
/// comes; and only a `response.completed` or `response.failed` event completes it.
pub proof fn law_completed_persists(s: CanonV, ev: JsonView)
    ensures
        s.completed ==> process_spec(s, ev).0.completed,
        !s.completed && process_spec(s, ev).0.completed ==>
            ev.get_str("type"@) == Some("response.completed"@) || ev.get_str("type"@) == Some("response.failed"@),
{
}

/// Over a whole stream, a completed response stays completed, so a later
/// `response.completed` releases no events and the end of the stream succeeds.
pub proof fn law_completed_persists_over(s: CanonV, evs: Seq<JsonView>)
    requires
        s.completed,
    ensures
        run_events(s, evs).0.completed,
    decreases evs.len(),
{
    if evs.len() > 0 {
        law_completed_persists_over(s, evs.drop_last());
        law_completed_persists(run_events(s, evs.drop_last()).0, evs.last());
    }
}

/// Whether an item is kept in the completed response: a reasoning item with
/// some text; a message with some text, or a blank one when the response has
/// no tool call and no other text; every tool call; nothing else.
pub open spec fn kept_at_completion(it: ItemV, has_tool: bool, has_text: bool) -> bool {
    match it.kind {
        KindV::Reasoning => !all_white(it.reasoning_text),
        KindV::Message => !all_white(it.text) || !(has_tool || has_text),
        KindV::FunctionCall => true,
        KindV::CustomToolCall => true,
        KindV::Other(_) => false,
    }
}

/// The output item an item becomes.
pub open spec fn output_item_of(it: ItemV) -> OutputItemV {
    match it.kind {
        KindV::Reasoning => reasoning_item(it),
        KindV::Message => message_item(it),
        KindV::FunctionCall => function_item(it),
        KindV::CustomToolCall => custom_tool_item(it),
        KindV::Other(_) => message_item(it),
    }
}

/// The output items of the kept items, in order.
pub open spec fn kept_outputs(items: Seq<ItemV>, has_tool: bool, has_text: bool) -> Seq<OutputItemV>
    decreases items.len(),
{
    if items.len() == 0 {
        Seq::empty()
    } else {
        let before = kept_outputs(items.drop_last(), has_tool, has_text);
        if kept_at_completion(items.last(), has_tool, has_text) {
            before.push(output_item_of(items.last()))
        } else {
            before
        }
    }
}

/// What a completion keeps: its output items are exactly the kept items'
/// (blank reasoning dropped, a blank message dropped when there is a tool
/// call or other text, unknown items dropped), in the order given.
pub proof fn law_completion_keeps(items: Seq<ItemV>, has_tool: bool, has_text: bool)
    ensures
        items_steps(items, has_tool, has_text) matches Ok((_, outs)) ==> outs == kept_outputs(items, has_tool, has_text),
    decreases items.len(),
{
    if items.len() > 0 {
        law_completion_keeps(items.drop_last(), has_tool, has_text);
        match items_steps(items.drop_last(), has_tool, has_text) {
            Ok((_, outs)) => {
                match item_step(items.last(), has_tool, has_text) {
                    Ok((_, o2)) => {
                        if kept_at_completion(items.last(), has_tool, has_text) {
                            assert(outs + o2 =~= outs.push(output_item_of(items.last())));
                        } else {
                            assert(outs + o2 =~= outs);
                        }
                    },
                    Err(_) => {},
                }
            },
            Err(_) => {},
        }
    }
}

/// Whether some item in `order` is a tool call.
pub open spec fn order_has_tool(order: Seq<ItemV>) -> bool {
    exists|i: int| 0 <= i < order.len() && is_tool(#[trigger] order[i].kind)
}

/// Whether some item in `order` is a message or reasoning item with text.
pub open spec fn order_has_text(order: Seq<ItemV>) -> bool {
    exists|i: int| 0 <= i < order.len() && nonblank_non_tool(#[trigger] order[i])
}

/// What a first completion answers: its events end with `response.completed`,
/// whose output is exactly the kept items in emission order and whose
/// `output_text` is the joined text of the kept messages.
pub proof fn law_completion_output(s: CanonV, response: Option<JsonView>)
    requires
        !s.completed,
    ensures
        finalize_spec(s, response).1 matches Ok(es) ==> {
            let order = sorted_items(s.items);
            let outs = kept_outputs(order, order_has_tool(order), order_has_text(order));
            &&& es.len() > 0
            &&& es.last() matches SseEventV::Completed { response: done }
            &&& done.output == Some(outs)
            &&& done.output_text == Some(output_text_of(outs))
        },
{
    let order = sorted_items(s.items);
    law_completion_keeps(order, order_has_tool(order), order_has_text(order));
}

/// A summary (or reasoning text) delta extends the item's reasoning: its text
/// grows by the delta at the end, and the delta is recorded after every delta
/// recorded before it, so deltas are kept in arrival order.
pub proof fn law_reasoning_delta_appends(t: Seq<char>, it: ItemV, ev: JsonView)
    requires
        t == "response.reasoning_summary_text.delta"@ || t == "response.reasoning_text.delta"@,
    ensures
        item_update(t, it, ev).kind == KindV::Reasoning,
        item_update(t, it, ev).reasoning_text == it.reasoning_text + str_or_empty(ev, "delta"@),
        item_update(t, it, ev).reasoning_deltas.len() == it.reasoning_deltas.len() + 1,
        forall|i: int| 0 <= i < it.reasoning_deltas.len() ==> #[trigger] item_update(t, it, ev).reasoning_deltas[i] == it.reasoning_deltas[i],
        item_update(t, it, ev).reasoning_deltas.last() == str_or_empty(ev, "delta"@),
{
    reveal(item_update);
    reveal_strlit("response.content_part.added");
    reveal_strlit("response.output_text.delta");
    reveal_strlit("response.output_text.done");
    reveal_strlit("response.content_part.done");
    reveal_strlit("response.reasoning_summary_part.added");
    reveal_strlit("response.reasoning_summary_text.delta");
    reveal_strlit("response.reasoning_text.delta");
    assert("response.content_part.added"@.len() == 27);
    assert("response.output_text.delta"@.len() == 26);
    assert("response.output_text.done"@.len() == 25);
    assert("response.content_part.done"@.len() == 26);
    assert("response.reasoning_summary_part.added"@.len() == 37);
    assert("response.reasoning_summary_text.delta"@.len() == 37);
    assert("response.reasoning_text.delta"@.len() == 29);
    assert("response.reasoning_summary_part.added"@[27] != "response.reasoning_summary_text.delta"@[27]);
}

/// The summary delta events replayed for a reasoning item are its non-empty
/// deltas, one event each, in the order they were recorded.
pub proof fn law_summary_deltas_replayed_in_order(ds: Seq<Seq<char>>, id: Seq<char>, oi: u32)
    ensures
        delta_events(ds, id, oi) == ds.filter(|d: Seq<char>| d.len() > 0).map_values(
            |d: Seq<char>| SseEventV::ReasoningSummaryTextDelta { item_id: id, output_index: oi, summary_index: 0, delta: d },
        ),
    decreases ds.len(),
{
    reveal(Seq::filter);
    let p = |d: Seq<char>| d.len() > 0;
    let f = |d: Seq<char>| SseEventV::ReasoningSummaryTextDelta { item_id: id, output_index: oi, summary_index: 0, delta: d };
    if ds.len() == 0 {
        assert(ds.filter(p).map_values(f) =~= Seq::<SseEventV>::empty());
    } else {
        law_summary_deltas_replayed_in_order(ds.drop_last(), id, oi);
        let before = ds.drop_last().filter(p);
        if ds.last().len() > 0 {
            assert(ds.filter(p) == before.push(ds.last()));
            assert(before.push(ds.last()).map_values(f) =~= before.map_values(f) + seq![f(ds.last())]);
        } else {
            assert(ds.filter(p) == before);
            assert(before.map_values(f) + Seq::<SseEventV>::empty() =~= before.map_values(f));
        }
    }
}

} // verus!
