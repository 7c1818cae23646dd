//! The Responses stream vocabulary the shim emits: output items, response
//! shells, stream events and API errors, each with a mathematical view.
use vstd::prelude::*;
use crate::metrics::Usage;
use crate::text::{owned, concat3, push_decimal, decimal};

verus! {

/// A part of a message's content.
#[derive(Debug)]
pub enum ContentPart {
    OutputText(String),
    Refusal(String),
}

pub enum ContentPartV {
    OutputText(Seq<char>),
    Refusal(Seq<char>),
}

impl View for ContentPart {
    type V = ContentPartV;

    open spec fn view(&self) -> ContentPartV {
        match self {
            ContentPart::OutputText(t) => ContentPartV::OutputText(t@),
            ContentPart::Refusal(t) => ContentPartV::Refusal(t@),
        }
    }
}

/// An item of a response's output.
#[derive(Debug)]
pub enum OutputItem {
    Message { id: String, status: String, role: String, content: Vec<ContentPart> },
    Reasoning { id: String, summary: Vec<String>, status: Option<String> },
    FunctionCall { id: String, status: String, call_id: String, name: String, arguments: String },
    CustomToolCall { id: String, status: String, call_id: String, name: String, input: String },
}

pub enum OutputItemV {
    Message { id: Seq<char>, status: Seq<char>, role: Seq<char>, content: Seq<ContentPartV> },
    Reasoning { id: Seq<char>, summary: Seq<Seq<char>>, status: Option<Seq<char>> },
    FunctionCall { id: Seq<char>, status: Seq<char>, call_id: Seq<char>, name: Seq<char>, arguments: Seq<char> },
    CustomToolCall { id: Seq<char>, status: Seq<char>, call_id: Seq<char>, name: Seq<char>, input: Seq<char> },
}

pub open spec fn opt_str(o: Option<String>) -> Option<Seq<char>> {
    match o {
        Some(s) => Some(s@),
        None => None,
    }
}

pub open spec fn strs(v: Seq<String>) -> Seq<Seq<char>> {
    Seq::new(v.len(), |i: int| v[i]@)
}

pub open spec fn parts(v: Seq<ContentPart>) -> Seq<ContentPartV> {
    Seq::new(v.len(), |i: int| v[i]@)
}

impl View for OutputItem {
    type V = OutputItemV;

    open spec fn view(&self) -> OutputItemV {
        match self {
            OutputItem::Message { id, status, role, content } => OutputItemV::Message {
                id: id@, status: status@, role: role@, content: parts(content@),
            },
            OutputItem::Reasoning { id, summary, status } => OutputItemV::Reasoning {
                id: id@, summary: strs(summary@), status: opt_str(*status),
            },
            OutputItem::FunctionCall { id, status, call_id, name, arguments } => OutputItemV::FunctionCall {
                id: id@, status: status@, call_id: call_id@, name: name@, arguments: arguments@,
            },
            OutputItem::CustomToolCall { id, status, call_id, name, input } => OutputItemV::CustomToolCall {
                id: id@, status: status@, call_id: call_id@, name: name@, input: input@,
            },
        }
    }
}

pub open spec fn items_view(v: Seq<OutputItem>) -> Seq<OutputItemV> {
    Seq::new(v.len(), |i: int| v[i]@)
}

/// The response object carried by lifecycle events.
#[derive(Debug)]
pub struct ResponseShell {
    pub id: String,
    pub model: String,
    pub created_at: i64,
    pub status: String,
    pub output: Option<Vec<OutputItem>>,
    pub output_text: Option<String>,
    pub usage: Option<Usage>,
    pub previous_response_id: Option<String>,
    /// Why the response failed, on a failed response.
    pub error: Option<ApiErrorBody>,
}

pub struct ResponseShellV {
    pub id: Seq<char>,
    pub model: Seq<char>,
    pub created_at: i64,
    pub status: Seq<char>,
    pub output: Option<Seq<OutputItemV>>,
    pub output_text: Option<Seq<char>>,
    pub usage: Option<Usage>,
    pub previous_response_id: Option<Seq<char>>,
    pub error: Option<ApiErrorV>,
}

impl View for ResponseShell {
    type V = ResponseShellV;

    open spec fn view(&self) -> ResponseShellV {
        ResponseShellV {
            id: self.id@,
            model: self.model@,
            created_at: self.created_at,
            status: self.status@,
            output: match self.output { Some(o) => Some(items_view(o@)), None => None },
            output_text: opt_str(self.output_text),
            usage: self.usage,
            previous_response_id: opt_str(self.previous_response_id),
            error: match self.error { Some(e) => Some(error_body_view(e)), None => None },
        }
    }
}

/// A server-sent event of the Responses stream.
#[derive(Debug)]
pub enum SseEvent {
    Created { response: ResponseShell },
    InProgress { response: ResponseShell },
    OutputItemAdded { output_index: u32, item: OutputItem },
    ContentPartAdded { item_id: String, output_index: u32, content_index: u32, part: ContentPart },
    OutputTextDelta { item_id: String, output_index: u32, content_index: u32, delta: String },
    OutputTextDone { item_id: String, output_index: u32, content_index: u32, text: String },
    ContentPartDone { item_id: String, output_index: u32, content_index: u32, part: ContentPart },
    ReasoningSummaryPartAdded { item_id: String, output_index: u32, summary_index: u32, part: String },
    ReasoningSummaryTextDelta { item_id: String, output_index: u32, summary_index: u32, delta: String },
    ReasoningSummaryTextDone { item_id: String, output_index: u32, summary_index: u32, text: String },
    ReasoningSummaryPartDone { item_id: String, output_index: u32, summary_index: u32, part: String },
    OutputItemDone { output_index: u32, item: OutputItem },
    FunctionCallArgumentsDelta { item_id: String, output_index: u32, delta: String },
    FunctionCallArgumentsDone { item_id: String, output_index: u32, arguments: String, name: Option<String> },
    CustomToolCallInputDelta { item_id: String, output_index: u32, delta: String },
    CustomToolCallInputDone { item_id: String, output_index: u32, input: String },
    Completed { response: ResponseShell },
    Failed { response: ResponseShell },
    Error { error: ApiError },
}

pub enum SseEventV {
    Created { response: ResponseShellV },
    InProgress { response: ResponseShellV },
    OutputItemAdded { output_index: u32, item: OutputItemV },
    ContentPartAdded { item_id: Seq<char>, output_index: u32, content_index: u32, part: ContentPartV },
    OutputTextDelta { item_id: Seq<char>, output_index: u32, content_index: u32, delta: Seq<char> },
    OutputTextDone { item_id: Seq<char>, output_index: u32, content_index: u32, text: Seq<char> },
    ContentPartDone { item_id: Seq<char>, output_index: u32, content_index: u32, part: ContentPartV },
    ReasoningSummaryPartAdded { item_id: Seq<char>, output_index: u32, summary_index: u32, part: Seq<char> },
    ReasoningSummaryTextDelta { item_id: Seq<char>, output_index: u32, summary_index: u32, delta: Seq<char> },
    ReasoningSummaryTextDone { item_id: Seq<char>, output_index: u32, summary_index: u32, text: Seq<char> },
    ReasoningSummaryPartDone { item_id: Seq<char>, output_index: u32, summary_index: u32, part: Seq<char> },
    OutputItemDone { output_index: u32, item: OutputItemV },
    FunctionCallArgumentsDelta { item_id: Seq<char>, output_index: u32, delta: Seq<char> },
    FunctionCallArgumentsDone { item_id: Seq<char>, output_index: u32, arguments: Seq<char>, name: Option<Seq<char>> },
    CustomToolCallInputDelta { item_id: Seq<char>, output_index: u32, delta: Seq<char> },
    CustomToolCallInputDone { item_id: Seq<char>, output_index: u32, input: Seq<char> },
    Completed { response: ResponseShellV },
    Failed { response: ResponseShellV },
    Error { error: ApiErrorV },
}

impl View for SseEvent {
    type V = SseEventV;

    open spec fn view(&self) -> SseEventV {
        match self {
            SseEvent::Created { response } => SseEventV::Created { response: response@ },
            SseEvent::InProgress { response } => SseEventV::InProgress { response: response@ },
            SseEvent::OutputItemAdded { output_index, item } => SseEventV::OutputItemAdded { output_index: *output_index, item: item@ },
            SseEvent::ContentPartAdded { item_id, output_index, content_index, part } =>
                SseEventV::ContentPartAdded { item_id: item_id@, output_index: *output_index, content_index: *content_index, part: part@ },
            SseEvent::OutputTextDelta { item_id, output_index, content_index, delta } =>
                SseEventV::OutputTextDelta { item_id: item_id@, output_index: *output_index, content_index: *content_index, delta: delta@ },
            SseEvent::OutputTextDone { item_id, output_index, content_index, text } =>
                SseEventV::OutputTextDone { item_id: item_id@, output_index: *output_index, content_index: *content_index, text: text@ },
            SseEvent::ContentPartDone { item_id, output_index, content_index, part } =>
                SseEventV::ContentPartDone { item_id: item_id@, output_index: *output_index, content_index: *content_index, part: part@ },
            SseEvent::ReasoningSummaryPartAdded { item_id, output_index, summary_index, part } =>
                SseEventV::ReasoningSummaryPartAdded { item_id: item_id@, output_index: *output_index, summary_index: *summary_index, part: part@ },
            SseEvent::ReasoningSummaryTextDelta { item_id, output_index, summary_index, delta } =>
                SseEventV::ReasoningSummaryTextDelta { item_id: item_id@, output_index: *output_index, summary_index: *summary_index, delta: delta@ },
            SseEvent::ReasoningSummaryTextDone { item_id, output_index, summary_index, text } =>
                SseEventV::ReasoningSummaryTextDone { item_id: item_id@, output_index: *output_index, summary_index: *summary_index, text: text@ },
            SseEvent::ReasoningSummaryPartDone { item_id, output_index, summary_index, part } =>
                SseEventV::ReasoningSummaryPartDone { item_id: item_id@, output_index: *output_index, summary_index: *summary_index, part: part@ },
            SseEvent::OutputItemDone { output_index, item } => SseEventV::OutputItemDone { output_index: *output_index, item: item@ },
            SseEvent::FunctionCallArgumentsDelta { item_id, output_index, delta } =>
                SseEventV::FunctionCallArgumentsDelta { item_id: item_id@, output_index: *output_index, delta: delta@ },
            SseEvent::FunctionCallArgumentsDone { item_id, output_index, arguments, name } =>
                SseEventV::FunctionCallArgumentsDone { item_id: item_id@, output_index: *output_index, arguments: arguments@, name: opt_str(*name) },
            SseEvent::CustomToolCallInputDelta { item_id, output_index, delta } =>
                SseEventV::CustomToolCallInputDelta { item_id: item_id@, output_index: *output_index, delta: delta@ },
            SseEvent::CustomToolCallInputDone { item_id, output_index, input } =>
                SseEventV::CustomToolCallInputDone { item_id: item_id@, output_index: *output_index, input: input@ },
            SseEvent::Completed { response } => SseEventV::Completed { response: response@ },
            SseEvent::Failed { response } => SseEventV::Failed { response: response@ },
            SseEvent::Error { error } => SseEventV::Error { error: error@ },
        }
    }
}

pub open spec fn events_view(v: Seq<SseEvent>) -> Seq<SseEventV> {
    Seq::new(v.len(), |i: int| v[i]@)
}

/// The body of an API error.
#[derive(Debug)]
pub struct ApiErrorBody {
    pub error_type: String,
    pub message: String,
    pub code: Option<String>,
    pub param: Option<String>,
}

/// An error returned to Responses clients.
#[derive(Debug)]
pub struct ApiError {
    pub error: ApiErrorBody,
}

pub struct ApiErrorV {
    pub error_type: Seq<char>,
    pub message: Seq<char>,
    pub code: Option<Seq<char>>,
    pub param: Option<Seq<char>>,
}

pub open spec fn error_body_view(b: ApiErrorBody) -> ApiErrorV {
    ApiErrorV {
        error_type: b.error_type@,
        message: b.message@,
        code: opt_str(b.code),
        param: opt_str(b.param),
    }
}

impl View for ApiError {
    type V = ApiErrorV;

    open spec fn view(&self) -> ApiErrorV {
        error_body_view(self.error)
    }
}

/// The event name of a stream event, as sent on the `event:` line.
pub open spec fn event_type_name(e: SseEventV) -> Seq<char> {
    match e {
        SseEventV::Created { .. } => "response.created"@,
        SseEventV::InProgress { .. } => "response.in_progress"@,
        SseEventV::OutputItemAdded { .. } => "response.output_item.added"@,
        SseEventV::ContentPartAdded { .. } => "response.content_part.added"@,
        SseEventV::OutputTextDelta { .. } => "response.output_text.delta"@,
        SseEventV::OutputTextDone { .. } => "response.output_text.done"@,
        SseEventV::ContentPartDone { .. } => "response.content_part.done"@,
        SseEventV::ReasoningSummaryPartAdded { .. } => "response.reasoning_summary_part.added"@,
        SseEventV::ReasoningSummaryTextDelta { .. } => "response.reasoning_summary_text.delta"@,
        SseEventV::ReasoningSummaryTextDone { .. } => "response.reasoning_summary_text.done"@,
        SseEventV::ReasoningSummaryPartDone { .. } => "response.reasoning_summary_part.done"@,
        SseEventV::OutputItemDone { .. } => "response.output_item.done"@,
        SseEventV::FunctionCallArgumentsDelta { .. } => "response.function_call_arguments.delta"@,
        SseEventV::FunctionCallArgumentsDone { .. } => "response.function_call_arguments.done"@,
        SseEventV::CustomToolCallInputDelta { .. } => "response.custom_tool_call_input.delta"@,
        SseEventV::CustomToolCallInputDone { .. } => "response.custom_tool_call_input.done"@,
        SseEventV::Completed { .. } => "response.completed"@,
        SseEventV::Failed { .. } => "response.failed"@,
        SseEventV::Error { .. } => "error"@,
    }
}

impl SseEvent {
    /// The event name sent on the `event:` line.
    pub fn event_type(&self) -> (r: &'static str)
        ensures
            r@ == event_type_name(self@),
    {
        match self {
            SseEvent::Created { .. } => "response.created",
            SseEvent::InProgress { .. } => "response.in_progress",
            SseEvent::OutputItemAdded { .. } => "response.output_item.added",
            SseEvent::ContentPartAdded { .. } => "response.content_part.added",
            SseEvent::OutputTextDelta { .. } => "response.output_text.delta",
            SseEvent::OutputTextDone { .. } => "response.output_text.done",
            SseEvent::ContentPartDone { .. } => "response.content_part.done",
            SseEvent::ReasoningSummaryPartAdded { .. } => "response.reasoning_summary_part.added",
            SseEvent::ReasoningSummaryTextDelta { .. } => "response.reasoning_summary_text.delta",
            SseEvent::ReasoningSummaryTextDone { .. } => "response.reasoning_summary_text.done",
            SseEvent::ReasoningSummaryPartDone { .. } => "response.reasoning_summary_part.done",
            SseEvent::OutputItemDone { .. } => "response.output_item.done",
            SseEvent::FunctionCallArgumentsDelta { .. } => "response.function_call_arguments.delta",
            SseEvent::FunctionCallArgumentsDone { .. } => "response.function_call_arguments.done",
            SseEvent::CustomToolCallInputDelta { .. } => "response.custom_tool_call_input.delta",
            SseEvent::CustomToolCallInputDone { .. } => "response.custom_tool_call_input.done",
            SseEvent::Completed { .. } => "response.completed",
            SseEvent::Failed { .. } => "response.failed",
            SseEvent::Error { .. } => "error",
        }
    }
}

impl ApiError {
    /// An error of the given type, message, code and parameter.
    pub fn new(error_type: &str, message: String, code: Option<String>, param: Option<String>) -> (r: ApiError)
        ensures
            r@.error_type == error_type@,
            r@.message == message@,
            r@.code == opt_str(code),
            r@.param == opt_str(param),
    {
        ApiError { error: ApiErrorBody { error_type: owned(error_type), message, code, param } }
    }

    /// A stream that ended or broke before a complete response, with details.
    pub fn stream_interrupted_with_details(message: String) -> (r: ApiError)
        ensures
            r@.error_type == "stream_interrupted"@,
            r@.message == message@,
            r@.code is None,
            r@.param is None,
    {
        ApiError::new("stream_interrupted", message, None, None)
    }
}

/// A request parameter with an invalid value.
pub open spec fn invalid_parameter_error(param: Seq<char>, code: Seq<char>, message: Seq<char>) -> ApiErrorV {
    ApiErrorV { error_type: "invalid_request_error"@, message, code: Some(code), param: Some(param) }
}

/// A request field that the shim knows but does not implement.
pub open spec fn field_not_implemented_error(field: Seq<char>) -> ApiErrorV {
    ApiErrorV {
        error_type: "not_implemented"@,
        message: "The '"@ + field + "' field is not implemented by codex-shim"@,
        code: Some("field_not_implemented"@),
        param: Some(field),
    }
}

/// A request field that the shim does not know.
pub open spec fn unknown_parameter_error(field: Seq<char>) -> ApiErrorV {
    ApiErrorV {
        error_type: "invalid_request_error"@,
        message: "Unknown parameter: '"@ + field + "'"@,
        code: Some("unknown_parameter"@),
        param: Some(field),
    }
}

/// An `include` entry the shim cannot produce.
pub open spec fn unsupported_include_error(entry: Seq<char>) -> ApiErrorV {
    ApiErrorV {
        error_type: "not_implemented"@,
        message: "include value '"@ + entry + "' is not supported by codex-shim"@,
        code: Some("unsupported_include"@),
        param: Some("include"@),
    }
}

/// A hosted tool (run by the platform, not the client) that the shim cannot run.
pub open spec fn hosted_tool_error(tool: Seq<char>) -> ApiErrorV {
    ApiErrorV {
        error_type: "not_implemented"@,
        message: "hosted tool '"@ + tool + "' is not supported by codex-shim"@,
        code: Some("hosted_tool_not_supported"@),
        param: Some("tools"@),
    }
}

/// A tool of an unknown type at position `idx` of `tools`.
pub open spec fn unsupported_tool_type_error(tool_type: Seq<char>, idx: nat) -> ApiErrorV {
    ApiErrorV {
        error_type: "invalid_request_error"@,
        message: "tool type '"@ + tool_type + "' is not supported"@,
        code: Some("unsupported_tool_type"@),
        param: Some("tools["@ + decimal(idx) + "]"@),
    }
}

/// An input item type that the shim recognizes but cannot relay.
pub open spec fn unsupported_input_item_error(item_type: Seq<char>) -> ApiErrorV {
    ApiErrorV {
        error_type: "not_implemented"@,
        message: "input item type '"@ + item_type + "' is not supported by codex-shim"@,
        code: Some("unsupported_input_item"@),
        param: Some("input"@),
    }
}

/// File inputs, which the shim cannot relay.
pub open spec fn file_input_error() -> ApiErrorV {
    ApiErrorV {
        error_type: "not_implemented"@,
        message: "file inputs are not supported by codex-shim"@,
        code: Some("file_input_not_supported"@),
        param: Some("input"@),
    }
}

/// An input item of a type the shim does not know.
pub open spec fn unknown_input_item_error(item_type: Option<Seq<char>>) -> ApiErrorV {
    ApiErrorV {
        error_type: "invalid_request_error"@,
        message: match item_type {
            Some(t) => "unknown input item type '"@ + t + "'"@,
            None => "unknown input item type"@,
        },
        code: Some("unknown_input_item"@),
        param: Some("input"@),
    }
}

/// A content part type the shim cannot relay.
pub open spec fn unsupported_content_part_error(part_type: Seq<char>) -> ApiErrorV {
    ApiErrorV {
        error_type: "not_implemented"@,
        message: "content part type '"@ + part_type + "' is not supported by codex-shim"@,
        code: Some("unsupported_content_part"@),
        param: Some("input"@),
    }
}

/// A stored response that does not exist.
pub open spec fn response_not_found_error(id: Seq<char>) -> ApiErrorV {
    ApiErrorV {
        error_type: "invalid_request_error"@,
        message: "Response with id '"@ + id + "' not found."@,
        code: Some("response_not_found"@),
        param: Some("response_id"@),
    }
}

/// A stored response whose debug artifact has expired.
pub open spec fn debug_artifact_expired_error(id: Seq<char>) -> ApiErrorV {
    ApiErrorV {
        error_type: "invalid_request_error"@,
        message: "Debug artifact for response '"@ + id + "' has expired."@,
        code: Some("debug_artifact_expired"@),
        param: Some("response_id"@),
    }
}

/// An internal failure.
pub open spec fn internal_error(message: Seq<char>) -> ApiErrorV {
    ApiErrorV { error_type: "internal_error"@, message, code: None, param: None }
}

impl ApiError {
    /// A request parameter with an invalid value.
    pub fn invalid_parameter(param: String, code: &str, message: String) -> (r: ApiError)
        ensures
            r@ == invalid_parameter_error(param@, code@, message@),
    {
        ApiError::new("invalid_request_error", message, Some(owned(code)), Some(param))
    }

    /// A request field that is known but not implemented.
    pub fn field_not_implemented(field: &str) -> (r: ApiError)
        ensures
            r@ == field_not_implemented_error(field@),
    {
        ApiError::new(
            "not_implemented",
            concat3("The '", field, "' field is not implemented by codex-shim"),
            Some(owned("field_not_implemented")),
            Some(owned(field)),
        )
    }

    /// A request field that is not known.
    pub fn unknown_parameter(field: &str) -> (r: ApiError)
        ensures
            r@ == unknown_parameter_error(field@),
    {
        ApiError::new(
            "invalid_request_error",
            concat3("Unknown parameter: '", field, "'"),
            Some(owned("unknown_parameter")),
            Some(owned(field)),
        )
    }

    /// An `include` entry that cannot be produced.
    pub fn unsupported_include(entry: &str) -> (r: ApiError)
        ensures
            r@ == unsupported_include_error(entry@),
    {
        ApiError::new(
            "not_implemented",
            concat3("include value '", entry, "' is not supported by codex-shim"),
            Some(owned("unsupported_include")),
            Some(owned("include")),
        )
    }

    /// A hosted tool that cannot be run.
    pub fn hosted_tool_not_supported(tool: &str) -> (r: ApiError)
        ensures
            r@ == hosted_tool_error(tool@),
    {
        ApiError::new(
            "not_implemented",
            concat3("hosted tool '", tool, "' is not supported by codex-shim"),
            Some(owned("hosted_tool_not_supported")),
            Some(owned("tools")),
        )
    }

    /// A tool of an unknown type at position `idx`.
    pub fn unsupported_tool_type(tool_type: &str, idx: usize) -> (r: ApiError)
        ensures
            r@ == unsupported_tool_type_error(tool_type@, idx as nat),
    {
        let mut param = owned("tools[");
        push_decimal(&mut param, idx as u64);
        param.append("]");
        ApiError::new(
            "invalid_request_error",
            concat3("tool type '", tool_type, "' is not supported"),
            Some(owned("unsupported_tool_type")),
            Some(param),
        )
    }

    /// An input item type that is recognized but cannot be relayed.
    pub fn unsupported_input_item(item_type: &str) -> (r: ApiError)
        ensures
            r@ == unsupported_input_item_error(item_type@),
    {
        ApiError::new(
            "not_implemented",
            concat3("input item type '", item_type, "' is not supported by codex-shim"),
            Some(owned("unsupported_input_item")),
            Some(owned("input")),
        )
    }

    /// File inputs, which cannot be relayed.
    pub fn file_input_not_supported() -> (r: ApiError)
        ensures
            r@ == file_input_error(),
    {
        ApiError::new(
            "not_implemented",
            owned("file inputs are not supported by codex-shim"),
            Some(owned("file_input_not_supported")),
            Some(owned("input")),
        )
    }

    /// An input item of an unknown type.
    pub fn unknown_input_item(item_type: Option<&str>) -> (r: ApiError)
        ensures
            r@ == unknown_input_item_error(match item_type { Some(t) => Some(t@), None => None }),
    {
        let message = match item_type {
            Some(t) => concat3("unknown input item type '", t, "'"),
            None => owned("unknown input item type"),
        };
        ApiError::new("invalid_request_error", message, Some(owned("unknown_input_item")), Some(owned("input")))
    }

    /// A content part type that cannot be relayed.
    pub fn unsupported_content_part(part_type: &str) -> (r: ApiError)
        ensures
            r@ == unsupported_content_part_error(part_type@),
    {
        ApiError::new(
            "not_implemented",
            concat3("content part type '", part_type, "' is not supported by codex-shim"),
            Some(owned("unsupported_content_part")),
            Some(owned("input")),
        )
    }

    /// A stored response that does not exist.
    pub fn response_not_found(id: &str) -> (r: ApiError)
        ensures
            r@ == response_not_found_error(id@),
    {
        ApiError::new(
            "invalid_request_error",
            concat3("Response with id '", id, "' not found."),
            Some(owned("response_not_found")),
            Some(owned("response_id")),
        )
    }

    /// A stored response whose debug artifact has expired.
    pub fn debug_artifact_expired(id: &str) -> (r: ApiError)
        ensures
            r@ == debug_artifact_expired_error(id@),
    {
        ApiError::new(
            "invalid_request_error",
            concat3("Debug artifact for response '", id, "' has expired."),
            Some(owned("debug_artifact_expired")),
            Some(owned("response_id")),
        )
    }

    /// An internal failure.
    pub fn internal(message: String) -> (r: ApiError)
        ensures
            r@ == internal_error(message@),
    {
        ApiError::new("internal_error", message, None, None)
    }
}

} // verus!
