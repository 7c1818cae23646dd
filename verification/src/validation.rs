//! Validation of Responses requests before they are relayed: which top-level
//! fields, `include` values, tools and input items the shim accepts, and the
//! error each rejected shape gets. Each check reports the first problem in
//! document order.
use vstd::prelude::*;
use crate::json::{JsonValue, JsonView};
use crate::events::{
    ApiError, ApiErrorV, invalid_parameter_error, field_not_implemented_error, unknown_parameter_error,
    unsupported_include_error, hosted_tool_error, unsupported_tool_type_error, unsupported_input_item_error,
    file_input_error, unknown_input_item_error, unsupported_content_part_error,
};
use crate::text::{str_eq, owned, concat2, concat3, push_decimal, decimal};

verus! {

/// `prefix[idx]`, the path of an element of an array.
pub open spec fn indexed_path(prefix: Seq<char>, idx: nat) -> Seq<char> {
    prefix + "["@ + decimal(idx) + "]"@
}

fn indexed(prefix: &str, idx: usize) -> (r: String)
    ensures
        r@ == indexed_path(prefix@, idx as nat),
{
    let mut s = concat2(prefix, "[");
    push_decimal(&mut s, idx as u64);
    s.append("]");
    s
}

/// The outcome of a check, as an error or nothing.
pub open spec fn check_result(r: Result<(), ApiError>) -> Option<ApiErrorV> {
    match r {
        Ok(()) => None,
        Err(e) => Some(e@),
    }
}

// ---------------------------------------------------------------------------
// Top-level fields.

/// The top-level request fields the shim relays.
pub open spec fn is_allowed_top_level_field(k: Seq<char>) -> bool {
    ||| k == "model"@
    ||| k == "input"@
    ||| k == "instructions"@
    ||| k == "include"@
    ||| k == "client_metadata"@
    ||| k == "previous_response_id"@
    ||| k == "prompt_cache_key"@
    ||| k == "store"@
    ||| k == "stream"@
    ||| k == "max_output_tokens"@
    ||| k == "temperature"@
    ||| k == "top_p"@
    ||| k == "tools"@
    ||| k == "tool_choice"@
    ||| k == "parallel_tool_calls"@
    ||| k == "reasoning"@
    ||| k == "text"@
    ||| k == "metadata"@
}

/// The top-level request fields the shim knows but does not implement.
pub open spec fn is_unimplemented_top_level_field(k: Seq<char>) -> bool {
    ||| k == "conversation"@
    ||| k == "background"@
    ||| k == "truncation"@
    ||| k == "max_tool_calls"@
    ||| k == "model_verbosity"@
}

pub open spec fn top_level_field_error(k: Seq<char>) -> Option<ApiErrorV> {
    if is_unimplemented_top_level_field(k) {
        Some(field_not_implemented_error(k))
    } else if !is_allowed_top_level_field(k) {
        Some(unknown_parameter_error(k))
    } else {
        None
    }
}

/// The error for the first rejected member of a request body, from `i` on.
pub open spec fn top_level_error(fields: Seq<(Seq<char>, JsonView)>, i: int) -> Option<ApiErrorV>
    decreases fields.len() - i,
{
    if i < 0 || i >= fields.len() {
        None
    } else {
        match top_level_field_error(fields[i].0) {
            Some(e) => Some(e),
            None => top_level_error(fields, i + 1),
        }
    }
}

fn is_allowed_top_level_field_exec(k: &str) -> (r: bool)
    ensures
        r == is_allowed_top_level_field(k@),
{
    str_eq(k, "model") || str_eq(k, "input") || str_eq(k, "instructions") || str_eq(k, "include")
        || str_eq(k, "client_metadata") || str_eq(k, "previous_response_id") || str_eq(k, "prompt_cache_key")
        || str_eq(k, "store") || str_eq(k, "stream") || str_eq(k, "max_output_tokens")
        || str_eq(k, "temperature") || str_eq(k, "top_p") || str_eq(k, "tools") || str_eq(k, "tool_choice")
        || str_eq(k, "parallel_tool_calls") || str_eq(k, "reasoning") || str_eq(k, "text")
        || str_eq(k, "metadata")
}

fn is_unimplemented_top_level_field_exec(k: &str) -> (r: bool)
    ensures
        r == is_unimplemented_top_level_field(k@),
{
    str_eq(k, "conversation") || str_eq(k, "background") || str_eq(k, "truncation")
        || str_eq(k, "max_tool_calls") || str_eq(k, "model_verbosity")
}

/// Checks the members of a request body, in order: a known but unimplemented
/// field is refused as not implemented, any other field outside the relayed
/// set as unknown.
pub fn validate_top_level_fields(body: &Vec<(String, JsonValue)>) -> (r: Result<(), ApiError>)
    ensures
        check_result(r) == top_level_error(JsonValue::Object(*body)@->Object_0, 0),
{
    let ghost fields = JsonValue::Object(*body)@->Object_0;
    let mut i: usize = 0;
    while i < body.len()
        invariant
            fields == JsonValue::Object(*body)@->Object_0,
            fields.len() == body@.len(),
            i <= body@.len(),
            top_level_error(fields, 0) == top_level_error(fields, i as int),
        decreases body@.len() - i,
    {
        let k = body[i].0.as_str();
        assert(fields[i as int].0 == k@);
        if is_unimplemented_top_level_field_exec(k) {
            return Err(ApiError::field_not_implemented(k));
        }
        if !is_allowed_top_level_field_exec(k) {
            return Err(ApiError::unknown_parameter(k));
        }
        i = i + 1;
    }
    Ok(())
}

// ---------------------------------------------------------------------------
// `include`.

/// No `include` value is produced by the shim: an array of strings is refused
/// at its first entry, an empty array is accepted.
pub open spec fn include_error(value: JsonView) -> Option<ApiErrorV> {
    match value.as_array() {
        None => Some(invalid_parameter_error("include"@, "invalid_include"@, "include must be an array of strings"@)),
        Some(items) => if items.len() == 0 {
            None
        } else {
            match items[0].as_str() {
                None => Some(invalid_parameter_error("include"@, "invalid_include"@, "include must contain only strings"@)),
                Some(entry) => Some(unsupported_include_error(entry)),
            }
        },
    }
}

/// Checks the `include` field.
pub fn validate_include(value: &JsonValue) -> (r: Result<(), ApiError>)
    ensures
        check_result(r) == include_error(value@),
{
    match value {
        JsonValue::Array(items) => {
            proof { crate::json::lemma_array_view(value, items); }
            if items.len() == 0 {
                return Ok(());
            }
            match &items[0] {
                JsonValue::Str(entry) => Err(ApiError::unsupported_include(entry.as_str())),
                _ => Err(ApiError::invalid_parameter(owned("include"), "invalid_include", owned("include must contain only strings"))),
            }
        }
        _ => Err(ApiError::invalid_parameter(owned("include"), "invalid_include", owned("include must be an array of strings"))),
    }
}

// ---------------------------------------------------------------------------
// Tools.

/// The error for a custom tool at `tools[idx]`: it needs a `format` object
/// whose `type`, `syntax` and `definition` are strings.
pub open spec fn custom_tool_error(item: JsonView, idx: nat) -> Option<ApiErrorV> {
    let path = indexed_path("tools"@, idx) + ".format"@;
    match item.get("format"@) {
        None => Some(invalid_parameter_error(path, "missing_required_parameter"@, "custom tools must include a 'format' object"@)),
        Some(format) => if !(format is Object) {
            Some(invalid_parameter_error(path, "invalid_format"@, "custom tool format must be an object"@))
        } else if format.get_str("type"@) is None {
            Some(format_field_error(path, "type"@))
        } else if format.get_str("syntax"@) is None {
            Some(format_field_error(path, "syntax"@))
        } else if format.get_str("definition"@) is None {
            Some(format_field_error(path, "definition"@))
        } else {
            None
        },
    }
}

pub open spec fn format_field_error(path: Seq<char>, field: Seq<char>) -> ApiErrorV {
    invalid_parameter_error(
        path + "."@ + field,
        "invalid_format"@,
        "custom tool format field '"@ + field + "' must be a string"@,
    )
}

/// The error for the tool at `tools[idx]`, if it is refused.
#[verifier::opaque]
pub open spec fn tool_error(item: JsonView, idx: nat) -> Option<ApiErrorV> {
    match item.get_str("type"@) {
        None => Some(invalid_parameter_error(indexed_path("tools"@, idx), "missing_type"@, "tool entries must include a string 'type' field"@)),
        Some(t) => if t == "function"@ || t == "namespace"@ {
            None
        } else if t == "custom"@ {
            custom_tool_error(item, idx)
        } else if t == "web_search"@ || t == "web_search_preview"@ {
            Some(hosted_tool_error("web_search"@))
        } else if t == "file_search"@ {
            Some(hosted_tool_error("file_search"@))
        } else if t == "code_interpreter"@ {
            Some(hosted_tool_error("code_interpreter"@))
        } else if t == "computer_use"@ {
            Some(hosted_tool_error("computer_use"@))
        } else if t == "mcp"@ {
            Some(hosted_tool_error("mcp"@))
        } else {
            Some(unsupported_tool_type_error(t, idx))
        },
    }
}

/// The error for the first refused tool, from position `i` on.
pub open spec fn tools_error_from(items: Seq<JsonView>, i: int) -> Option<ApiErrorV>
    decreases items.len() - i,
{
    if i < 0 || i >= items.len() {
        None
    } else {
        match tool_error(items[i], i as nat) {
            Some(e) => Some(e),
            None => tools_error_from(items, i + 1),
        }
    }
}

pub open spec fn tools_error(tools: JsonView) -> Option<ApiErrorV> {
    match tools.as_array() {
        None => Some(invalid_parameter_error("tools"@, "invalid_tools"@, "tools must be an array"@)),
        Some(items) => tools_error_from(items, 0),
    }
}

fn format_field_check(format: &JsonValue, path: &String, field: &str) -> (r: Result<(), ApiError>)
    ensures
        check_result(r) == if format@.get_str(field@) is None { Some(format_field_error(path@, field@)) } else { None },
{
    if format.get_str(field).is_none() {
        Err(ApiError::invalid_parameter(
            concat3(path.as_str(), ".", field),
            "invalid_format",
            concat3("custom tool format field '", field, "' must be a string"),
        ))
    } else {
        Ok(())
    }
}

/// Checks a custom tool definition at `tools[idx]`.
fn validate_custom_tool(item: &JsonValue, idx: usize) -> (r: Result<(), ApiError>)
    ensures
        check_result(r) == custom_tool_error(item@, idx as nat),
{
    let base = indexed("tools", idx);
    let path = concat2(base.as_str(), ".format");
    let format = match item.get("format") {
        None => {
            return Err(ApiError::invalid_parameter(path, "missing_required_parameter", owned("custom tools must include a 'format' object")));
        }
        Some(f) => f,
    };
    if !format.is_object() {
        return Err(ApiError::invalid_parameter(path, "invalid_format", owned("custom tool format must be an object")));
    }
    format_field_check(format, &path, "type")?;
    format_field_check(format, &path, "syntax")?;
    format_field_check(format, &path, "definition")?;
    Ok(())
}

fn validate_tool(item: &JsonValue, idx: usize) -> (r: Result<(), ApiError>)
    ensures
        check_result(r) == tool_error(item@, idx as nat),
{
    reveal(tool_error);
    let t = match item.get_str("type") {
        None => {
            return Err(ApiError::invalid_parameter(indexed("tools", idx), "missing_type", owned("tool entries must include a string 'type' field")));
        }
        Some(t) => t.as_str(),
    };
    if str_eq(t, "function") || str_eq(t, "namespace") {
        Ok(())
    } else if str_eq(t, "custom") {
        validate_custom_tool(item, idx)
    } else if str_eq(t, "web_search") || str_eq(t, "web_search_preview") {
        Err(ApiError::hosted_tool_not_supported("web_search"))
    } else if str_eq(t, "file_search") {
        Err(ApiError::hosted_tool_not_supported("file_search"))
    } else if str_eq(t, "code_interpreter") {
        Err(ApiError::hosted_tool_not_supported("code_interpreter"))
    } else if str_eq(t, "computer_use") {
        Err(ApiError::hosted_tool_not_supported("computer_use"))
    } else if str_eq(t, "mcp") {
        Err(ApiError::hosted_tool_not_supported("mcp"))
    } else {
        Err(ApiError::unsupported_tool_type(t, idx))
    }
}

/// Checks the `tools` field: an array of function, namespace and well-formed
/// custom tools. Hosted tools are refused as not supported.
pub fn validate_tools(tools: &JsonValue) -> (r: Result<(), ApiError>)
    ensures
        check_result(r) == tools_error(tools@),
{
    let items = match tools {
        JsonValue::Array(items) => items,
        _ => {
            return Err(ApiError::invalid_parameter(owned("tools"), "invalid_tools", owned("tools must be an array")));
        }
    };
    proof { crate::json::lemma_array_view(tools, items); }
    let ghost views = tools@->Array_0;
    let mut i: usize = 0;
    while i < items.len()
        invariant
            views == tools@->Array_0,
            *tools == JsonValue::Array(*items),
            views.len() == items@.len(),
            forall|k: int| 0 <= k < items@.len() ==> (#[trigger] views[k]) == items@[k]@,
            i <= items@.len(),
            tools_error_from(views, 0) == tools_error_from(views, i as int),
        decreases items@.len() - i,
    {
        validate_tool(&items[i], i)?;
        i = i + 1;
    }
    Ok(())
}

// ---------------------------------------------------------------------------
// Input items.

/// The error for a content part of a message at `path`.
pub open spec fn content_part_error(part: JsonView, path: Seq<char>) -> Option<ApiErrorV> {
    match part.get_str("type"@) {
        None => Some(invalid_parameter_error(path, "missing_type"@, "content parts must include a string 'type' field"@)),
        Some(t) => if t == "input_text"@ || t == "input_image"@ || t == "output_text"@ {
            None
        } else {
            Some(unsupported_content_part_error(t))
        },
    }
}

/// The error for the first refused content part, from position `i` on.
pub open spec fn content_parts_error(parts: Seq<JsonView>, path: Seq<char>, i: int) -> Option<ApiErrorV>
    decreases parts.len() - i,
{
    if i < 0 || i >= parts.len() {
        None
    } else {
        match content_part_error(parts[i], indexed_path(path + ".content"@, i as nat)) {
            Some(e) => Some(e),
            None => content_parts_error(parts, path, i + 1),
        }
    }
}

/// The error for a message item at `path`: its content, when present, is a
/// string or an array of accepted content parts.
pub open spec fn message_item_error(item: JsonView, path: Seq<char>) -> Option<ApiErrorV> {
    match item.get("content"@) {
        None => None,
        Some(JsonView::Str(_)) => None,
        Some(JsonView::Array(parts)) => content_parts_error(parts, path, 0),
        Some(_) => Some(invalid_parameter_error(path, "invalid_message_content"@, "message content must be a string or an array of content parts"@)),
    }
}

/// The error for a custom tool call item at `path`: its input is a string.
pub open spec fn custom_tool_call_error(item: JsonView, path: Seq<char>) -> Option<ApiErrorV> {
    match item.get("input"@) {
        None => Some(invalid_parameter_error(path + ".input"@, "missing_required_parameter"@, "custom_tool_call input must be a string"@)),
        Some(JsonView::Str(_)) => None,
        Some(_) => Some(invalid_parameter_error(path + ".input"@, "invalid_custom_tool_input"@, "custom_tool_call input must be a string"@)),
    }
}

/// The error for one part of a function call output.
pub open spec fn output_part_error(part: JsonView, path: Seq<char>) -> Option<ApiErrorV> {
    match part.get_str("type"@) {
        None => Some(invalid_parameter_error(path, "missing_type"@, "function_call_output parts must include a string 'type' field"@)),
        Some(t) => if t == "input_text"@ {
            if part.get_str("text"@) is None {
                Some(invalid_parameter_error(path, "invalid_output_part"@, "function_call_output input_text parts must include string text"@))
            } else {
                None
            }
        } else if t == "input_image"@ {
            if part.get("image_url"@) is None {
                Some(invalid_parameter_error(path, "invalid_output_part"@, "function_call_output input_image parts must include image_url"@))
            } else {
                None
            }
        } else {
            Some(unsupported_content_part_error(t))
        },
    }
}

pub open spec fn output_parts_error(parts: Seq<JsonView>, path: Seq<char>, i: int) -> Option<ApiErrorV>
    decreases parts.len() - i,
{
    if i < 0 || i >= parts.len() {
        None
    } else {
        match output_part_error(parts[i], indexed_path(path + ".output"@, i as nat)) {
            Some(e) => Some(e),
            None => output_parts_error(parts, path, i + 1),
        }
    }
}

/// The error for a function call output item at `path`: its output, when
/// present, is a string or an array of text and image parts.
pub open spec fn function_call_output_error(item: JsonView, path: Seq<char>) -> Option<ApiErrorV> {
    match item.get("output"@) {
        None => None,
        Some(JsonView::Str(_)) => None,
        Some(JsonView::Array(parts)) => output_parts_error(parts, path, 0),
        Some(_) => Some(invalid_parameter_error(path, "invalid_function_call_output"@, "function_call_output.output must be a string or an array of input_text parts"@)),
    }
}

/// The reasoning content part types the shim relays.
pub open spec fn is_reasoning_content_type(t: Seq<char>) -> bool {
    t == "reasoning_text"@ || t == "text"@ || t == "output_text"@
}

pub open spec fn reasoning_part_error(part: JsonView, path: Seq<char>, summary: bool) -> Option<ApiErrorV> {
    match part.get_str("type"@) {
        None => Some(invalid_parameter_error(
            path,
            "missing_type"@,
            if summary { "reasoning summary parts must include a string 'type' field"@ } else { "reasoning content parts must include a string 'type' field"@ },
        )),
        Some(t) => if summary {
            if t == "summary_text"@ {
                None
            } else {
                Some(invalid_parameter_error(path, "unsupported_reasoning_summary"@, "reasoning summary part type '"@ + t + "' is not supported"@))
            }
        } else if is_reasoning_content_type(t) {
            None
        } else {
            Some(invalid_parameter_error(path, "unsupported_reasoning_content"@, "reasoning content part type '"@ + t + "' is not supported"@))
        },
    }
}

pub open spec fn reasoning_parts_error(parts: Seq<JsonView>, path: Seq<char>, summary: bool, i: int) -> Option<ApiErrorV>
    decreases parts.len() - i,
{
    if i < 0 || i >= parts.len() {
        None
    } else {
        match reasoning_part_error(parts[i], indexed_path(path, i as nat), summary) {
            Some(e) => Some(e),
            None => reasoning_parts_error(parts, path, summary, i + 1),
        }
    }
}

/// The error for a reasoning item at `path`: a non-null `content` is an array
/// of text parts, and a `summary` an array of summary text parts.
pub open spec fn reasoning_item_error(item: JsonView, path: Seq<char>) -> Option<ApiErrorV> {
    let content_error = match item.get("content"@) {
        None => None,
        Some(JsonView::Null) => None,
        Some(JsonView::Array(parts)) => reasoning_parts_error(parts, path + ".content"@, false, 0),
        Some(_) => Some(invalid_parameter_error(path + ".content"@, "invalid_reasoning_content"@, "reasoning.content must be an array"@)),
    };
    match content_error {
        Some(e) => Some(e),
        None => match item.get("summary"@) {
            None => None,
            Some(JsonView::Array(parts)) => reasoning_parts_error(parts, path + ".summary"@, true, 0),
            Some(_) => Some(invalid_parameter_error(path + ".summary"@, "invalid_reasoning_summary"@, "reasoning.summary must be an array"@)),
        },
    }
}

/// The input item types that are relayed without further checks.
pub open spec fn is_plain_item_type(t: Seq<char>) -> bool {
    ||| t == "function_call"@
    ||| t == "local_shell_call"@
    ||| t == "apply_patch_call"@
    ||| t == "custom_tool_call_output"@
    ||| t == "local_shell_call_output"@
    ||| t == "apply_patch_call_output"@
}

/// The input item types the shim recognizes but cannot relay.
pub open spec fn is_unsupported_item_type(t: Seq<char>) -> bool {
    ||| t == "mcp_call"@
    ||| t == "web_search_call"@
    ||| t == "file_search_call"@
    ||| t == "code_interpreter_call"@
    ||| t == "computer_call"@
}

/// The error for an input item at `path`, if it is refused.
#[verifier::opaque]
pub open spec fn input_item_error(item: JsonView, path: Seq<char>) -> Option<ApiErrorV> {
    if !(item is Object) {
        Some(invalid_parameter_error(path, "invalid_input_item"@, "input items must be JSON objects"@))
    } else {
        match item.get_str("type"@) {
            None => Some(invalid_parameter_error(path, "missing_type"@, "input items must include a string 'type' field"@)),
            Some(t) => if t == "message"@ {
                message_item_error(item, path)
            } else if is_plain_item_type(t) {
                None
            } else if t == "custom_tool_call"@ {
                custom_tool_call_error(item, path)
            } else if t == "function_call_output"@ {
                function_call_output_error(item, path)
            } else if t == "reasoning"@ {
                reasoning_item_error(item, path)
            } else if is_unsupported_item_type(t) {
                Some(unsupported_input_item_error(t))
            } else if t == "input_file"@ {
                Some(file_input_error())
            } else {
                Some(unknown_input_item_error(Some(t)))
            },
        }
    }
}

pub open spec fn input_items_error(items: Seq<JsonView>, i: int) -> Option<ApiErrorV>
    decreases items.len() - i,
{
    if i < 0 || i >= items.len() {
        None
    } else {
        match input_item_error(items[i], indexed_path("input"@, i as nat)) {
            Some(e) => Some(e),
            None => input_items_error(items, i + 1),
        }
    }
}

/// The error for a request's `input`: a string, an item, or an array of items.
pub open spec fn raw_input_error(input: Option<JsonView>) -> Option<ApiErrorV> {
    match input {
        None => None,
        Some(JsonView::Str(_)) => None,
        Some(JsonView::Object(_)) => input_item_error(input->0, "input"@),
        Some(JsonView::Array(items)) => input_items_error(items, 0),
        Some(_) => Some(invalid_parameter_error(
            "input"@,
            "invalid_input"@,
            "input must be a string, a Responses item object, or an array of Responses items"@,
        )),
    }
}

fn validate_content_part(part: &JsonValue, path: String) -> (r: Result<(), ApiError>)
    ensures
        check_result(r) == content_part_error(part@, path@),
{
    match part.get_str("type") {
        None => Err(ApiError::invalid_parameter(path, "missing_type", owned("content parts must include a string 'type' field"))),
        Some(t) => {
            let t = t.as_str();
            if str_eq(t, "input_text") || str_eq(t, "input_image") || str_eq(t, "output_text") {
                Ok(())
            } else {
                Err(ApiError::unsupported_content_part(t))
            }
        }
    }
}

fn validate_message_item(item: &JsonValue, path: &str) -> (r: Result<(), ApiError>)
    ensures
        check_result(r) == message_item_error(item@, path@),
{
    match item.get("content") {
        None => Ok(()),
        Some(JsonValue::Str(_)) => Ok(()),
        Some(content) => {
            match content {
                JsonValue::Array(parts) => {
                    proof { crate::json::lemma_array_view(content, parts); }
                    let ghost views = content@->Array_0;
                    let prefix = concat2(path, ".content");
                    let mut i: usize = 0;
                    while i < parts.len()
                        invariant
                            views == content@->Array_0,
                            item@.get("content"@) == Some(content@),
                            content@ == JsonView::Array(views),
                            views.len() == parts@.len(),
                            forall|k: int| 0 <= k < parts@.len() ==> (#[trigger] views[k]) == parts@[k]@,
                            prefix@ == path@ + ".content"@,
                            i <= parts@.len(),
                            content_parts_error(views, path@, 0) == content_parts_error(views, path@, i as int),
                        decreases parts@.len() - i,
                    {
                        validate_content_part(&parts[i], indexed(prefix.as_str(), i))?;
                        i = i + 1;
                    }
                    Ok(())
                }
                _ => Err(ApiError::invalid_parameter(
                    owned(path),
                    "invalid_message_content",
                    owned("message content must be a string or an array of content parts"),
                )),
            }
        }
    }
}

fn validate_custom_tool_call(item: &JsonValue, path: &str) -> (r: Result<(), ApiError>)
    ensures
        check_result(r) == custom_tool_call_error(item@, path@),
{
    match item.get("input") {
        None => Err(ApiError::invalid_parameter(
            concat2(path, ".input"),
            "missing_required_parameter",
            owned("custom_tool_call input must be a string"),
        )),
        Some(JsonValue::Str(_)) => Ok(()),
        Some(_) => Err(ApiError::invalid_parameter(
            concat2(path, ".input"),
            "invalid_custom_tool_input",
            owned("custom_tool_call input must be a string"),
        )),
    }
}

fn validate_output_part(part: &JsonValue, path: String) -> (r: Result<(), ApiError>)
    ensures
        check_result(r) == output_part_error(part@, path@),
{
    let t = match part.get_str("type") {
        None => {
            return Err(ApiError::invalid_parameter(path, "missing_type", owned("function_call_output parts must include a string 'type' field")));
        }
        Some(t) => t.as_str(),
    };
    if str_eq(t, "input_text") {
        if part.get_str("text").is_none() {
            return Err(ApiError::invalid_parameter(path, "invalid_output_part", owned("function_call_output input_text parts must include string text")));
        }
        Ok(())
    } else if str_eq(t, "input_image") {
        if part.get("image_url").is_none() {
            return Err(ApiError::invalid_parameter(path, "invalid_output_part", owned("function_call_output input_image parts must include image_url")));
        }
        Ok(())
    } else {
        Err(ApiError::unsupported_content_part(t))
    }
}

/// Checks a function call output item at `path`.
pub fn validate_function_call_output(item: &JsonValue, path: &str) -> (r: Result<(), ApiError>)
    ensures
        check_result(r) == function_call_output_error(item@, path@),
{
    match item.get("output") {
        None => Ok(()),
        Some(JsonValue::Str(_)) => Ok(()),
        Some(output) => {
            match output {
                JsonValue::Array(parts) => {
                    proof { crate::json::lemma_array_view(output, parts); }
                    let ghost views = output@->Array_0;
                    let prefix = concat2(path, ".output");
                    let mut i: usize = 0;
                    while i < parts.len()
                        invariant
                            views == output@->Array_0,
                            item@.get("output"@) == Some(output@),
                            output@ == JsonView::Array(views),
                            views.len() == parts@.len(),
                            forall|k: int| 0 <= k < parts@.len() ==> (#[trigger] views[k]) == parts@[k]@,
                            prefix@ == path@ + ".output"@,
                            i <= parts@.len(),
                            output_parts_error(views, path@, 0) == output_parts_error(views, path@, i as int),
                        decreases parts@.len() - i,
                    {
                        validate_output_part(&parts[i], indexed(prefix.as_str(), i))?;
                        i = i + 1;
                    }
                    Ok(())
                }
                _ => Err(ApiError::invalid_parameter(
                    owned(path),
                    "invalid_function_call_output",
                    owned("function_call_output.output must be a string or an array of input_text parts"),
                )),
            }
        }
    }
}

fn validate_reasoning_part(part: &JsonValue, path: String, summary: bool) -> (r: Result<(), ApiError>)
    ensures
        check_result(r) == reasoning_part_error(part@, path@, summary),
{
    let t = match part.get_str("type") {
        None => {
            let message = if summary {
                owned("reasoning summary parts must include a string 'type' field")
            } else {
                owned("reasoning content parts must include a string 'type' field")
            };
            return Err(ApiError::invalid_parameter(path, "missing_type", message));
        }
        Some(t) => t.as_str(),
    };
    if summary {
        if str_eq(t, "summary_text") {
            Ok(())
        } else {
            Err(ApiError::invalid_parameter(path, "unsupported_reasoning_summary", concat3("reasoning summary part type '", t, "' is not supported")))
        }
    } else if str_eq(t, "reasoning_text") || str_eq(t, "text") || str_eq(t, "output_text") {
        Ok(())
    } else {
        Err(ApiError::invalid_parameter(path, "unsupported_reasoning_content", concat3("reasoning content part type '", t, "' is not supported")))
    }
}

fn validate_reasoning_parts(parts: &Vec<JsonValue>, whole: &JsonValue, path: &String, summary: bool) -> (r: Result<(), ApiError>)
    requires
        *whole == JsonValue::Array(*parts),
    ensures
        check_result(r) == reasoning_parts_error(whole@->Array_0, path@, summary, 0),
{
    proof { crate::json::lemma_array_view(whole, parts); }
    let ghost views = whole@->Array_0;
    let mut i: usize = 0;
    while i < parts.len()
        invariant
            views == whole@->Array_0,
            views.len() == parts@.len(),
            forall|k: int| 0 <= k < parts@.len() ==> (#[trigger] views[k]) == parts@[k]@,
            i <= parts@.len(),
            reasoning_parts_error(views, path@, summary, 0) == reasoning_parts_error(views, path@, summary, i as int),
        decreases parts@.len() - i,
    {
        validate_reasoning_part(&parts[i], indexed(path.as_str(), i), summary)?;
        i = i + 1;
    }
    Ok(())
}

/// Checks a reasoning item at `path`.
pub fn validate_reasoning_item(item: &JsonValue, path: &str) -> (r: Result<(), ApiError>)
    ensures
        check_result(r) == reasoning_item_error(item@, path@),
{
    match item.get("content") {
        None => {}
        Some(JsonValue::Null) => {}
        Some(content) => {
            let content_path = concat2(path, ".content");
            match content {
                JsonValue::Array(parts) => validate_reasoning_parts(parts, content, &content_path, false)?,
                _ => {
                    return Err(ApiError::invalid_parameter(content_path, "invalid_reasoning_content", owned("reasoning.content must be an array")));
                }
            }
        }
    }
    match item.get("summary") {
        None => Ok(()),
        Some(summary) => {
            let summary_path = concat2(path, ".summary");
            match summary {
                JsonValue::Array(parts) => validate_reasoning_parts(parts, summary, &summary_path, true),
                _ => Err(ApiError::invalid_parameter(summary_path, "invalid_reasoning_summary", owned("reasoning.summary must be an array"))),
            }
        }
    }
}

fn is_plain_item_type_exec(t: &str) -> (r: bool)
    ensures
        r == is_plain_item_type(t@),
{
    str_eq(t, "function_call") || str_eq(t, "local_shell_call") || str_eq(t, "apply_patch_call")
        || str_eq(t, "custom_tool_call_output") || str_eq(t, "local_shell_call_output")
        || str_eq(t, "apply_patch_call_output")
}

fn is_unsupported_item_type_exec(t: &str) -> (r: bool)
    ensures
        r == is_unsupported_item_type(t@),
{
    str_eq(t, "mcp_call") || str_eq(t, "web_search_call") || str_eq(t, "file_search_call")
        || str_eq(t, "code_interpreter_call") || str_eq(t, "computer_call")
}

/// Checks one input item at `path`.
pub fn validate_input_item(item: &JsonValue, path: &str) -> (r: Result<(), ApiError>)
    ensures
        check_result(r) == input_item_error(item@, path@),
{
    reveal(input_item_error);
    if !item.is_object() {
        return Err(ApiError::invalid_parameter(owned(path), "invalid_input_item", owned("input items must be JSON objects")));
    }
    let t = match item.get_str("type") {
        None => {
            return Err(ApiError::invalid_parameter(owned(path), "missing_type", owned("input items must include a string 'type' field")));
        }
        Some(t) => t.as_str(),
    };
    if str_eq(t, "message") {
        validate_message_item(item, path)
    } else if is_plain_item_type_exec(t) {
        Ok(())
    } else if str_eq(t, "custom_tool_call") {
        validate_custom_tool_call(item, path)
    } else if str_eq(t, "function_call_output") {
        validate_function_call_output(item, path)
    } else if str_eq(t, "reasoning") {
        validate_reasoning_item(item, path)
    } else if is_unsupported_item_type_exec(t) {
        Err(ApiError::unsupported_input_item(t))
    } else if str_eq(t, "input_file") {
        Err(ApiError::file_input_not_supported())
    } else {
        Err(ApiError::unknown_input_item(Some(t)))
    }
}

/// Checks a request's `input`.
pub fn validate_raw_input(input: Option<&JsonValue>) -> (r: Result<(), ApiError>)
    ensures
        check_result(r) == raw_input_error(match input { Some(v) => Some(v@), None => None }),
{
    let value = match input {
        None => {
            return Ok(());
        }
        Some(v) => v,
    };
    match value {
        JsonValue::Str(_) => Ok(()),
        JsonValue::Object(_) => validate_input_item(value, "input"),
        JsonValue::Array(items) => {
            proof { crate::json::lemma_array_view(value, items); }
            let ghost views = value@->Array_0;
            let mut i: usize = 0;
            while i < items.len()
                invariant
                    input == Some(value),
                    value@ == JsonView::Array(views),
                    views.len() == items@.len(),
                    forall|k: int| 0 <= k < items@.len() ==> (#[trigger] views[k]) == items@[k]@,
                    i <= items@.len(),
                    input_items_error(views, 0) == input_items_error(views, i as int),
                decreases items@.len() - i,
            {
                let path = indexed("input", i);
                validate_input_item(&items[i], path.as_str())?;
                i = i + 1;
            }
            Ok(())
        }
        _ => Err(ApiError::invalid_parameter(
            owned("input"),
            "invalid_input",
            owned("input must be a string, a Responses item object, or an array of Responses items"),
        )),
    }
}

// ---------------------------------------------------------------------------
// Upstream response output.

pub open spec fn output_field_error(idx: nat, kind: Seq<char>, field: Seq<char>) -> ApiErrorV {
    invalid_parameter_error(
        indexed_path("response.output"@, idx) + "."@ + field,
        "invalid_response_output"@,
        kind + " output item must include string '"@ + field + "'"@,
    )
}

/// The first of three fields that is not a string in an output item.
pub open spec fn first_missing_field(item: JsonView, idx: nat, kind: Seq<char>, f1: Seq<char>, f2: Seq<char>, f3: Seq<char>) -> Option<ApiErrorV> {
    if item.get_str(f1) is None {
        Some(output_field_error(idx, kind, f1))
    } else if item.get_str(f2) is None {
        Some(output_field_error(idx, kind, f2))
    } else if item.get_str(f3) is None {
        Some(output_field_error(idx, kind, f3))
    } else {
        None
    }
}

/// Tool call items of an upstream response carry their name, call id and
/// arguments (or input) as strings.
pub open spec fn output_item_shape_error(item: JsonView, idx: nat) -> Option<ApiErrorV> {
    match item.get_str("type"@) {
        Some(t) => if t == "function_call"@ {
            first_missing_field(item, idx, "function_call"@, "name"@, "call_id"@, "arguments"@)
        } else if t == "custom_tool_call"@ {
            first_missing_field(item, idx, "custom_tool_call"@, "name"@, "call_id"@, "input"@)
        } else {
            None
        },
        None => None,
    }
}

pub open spec fn output_items_shape_error(items: Seq<JsonView>, i: int) -> Option<ApiErrorV>
    decreases items.len() - i,
{
    if i < 0 || i >= items.len() {
        None
    } else {
        match output_item_shape_error(items[i], i as nat) {
            Some(e) => Some(e),
            None => output_items_shape_error(items, i + 1),
        }
    }
}

/// The error for an upstream response whose `output` is malformed.
pub open spec fn output_shape_error(response: JsonView) -> Option<ApiErrorV> {
    match response.get("output"@) {
        None => None,
        Some(JsonView::Array(items)) => output_items_shape_error(items, 0),
        Some(_) => Some(invalid_parameter_error("response.output"@, "invalid_response_output"@, "response.output must be an array"@)),
    }
}

fn check_output_field(item: &JsonValue, idx: usize, kind: &str, field: &str) -> (r: Result<(), ApiError>)
    ensures
        check_result(r) == if item@.get_str(field@) is None { Some(output_field_error(idx as nat, kind@, field@)) } else { None },
{
    if item.get_str(field).is_none() {
        let base = indexed("response.output", idx);
        Err(ApiError::invalid_parameter(
            concat3(base.as_str(), ".", field),
            "invalid_response_output",
            concat3(concat2(kind, " output item must include string '").as_str(), field, "'"),
        ))
    } else {
        Ok(())
    }
}

fn validate_output_item_shape(item: &JsonValue, idx: usize) -> (r: Result<(), ApiError>)
    ensures
        check_result(r) == output_item_shape_error(item@, idx as nat),
{
    match item.get_str("type") {
        Some(t) => {
            if str_eq(t.as_str(), "function_call") {
                check_output_field(item, idx, "function_call", "name")?;
                check_output_field(item, idx, "function_call", "call_id")?;
                check_output_field(item, idx, "function_call", "arguments")
            } else if str_eq(t.as_str(), "custom_tool_call") {
                check_output_field(item, idx, "custom_tool_call", "name")?;
                check_output_field(item, idx, "custom_tool_call", "call_id")?;
                check_output_field(item, idx, "custom_tool_call", "input")
            } else {
                Ok(())
            }
        }
        None => Ok(()),
    }
}

/// Checks the shape of an upstream response's `output` before it is relayed.
pub fn validate_responses_output_shape(response: &JsonValue) -> (r: Result<(), ApiError>)
    ensures
        check_result(r) == output_shape_error(response@),
{
    let output = match response.get("output") {
        None => {
            return Ok(());
        }
        Some(o) => o,
    };
    let items = match output {
        JsonValue::Array(items) => items,
        _ => {
            return Err(ApiError::invalid_parameter(owned("response.output"), "invalid_response_output", owned("response.output must be an array")));
        }
    };
    proof { crate::json::lemma_array_view(output, items); }
    let ghost views = output@->Array_0;
    let mut i: usize = 0;
    while i < items.len()
        invariant
            response@.get("output"@) == Some(output@),
            output@ == JsonView::Array(views),
            views.len() == items@.len(),
            forall|k: int| 0 <= k < items@.len() ==> (#[trigger] views[k]) == items@[k]@,
            i <= items@.len(),
            output_items_shape_error(views, 0) == output_items_shape_error(views, i as int),
        decreases items@.len() - i,
    {
        validate_output_item_shape(&items[i], i)?;
        i = i + 1;
    }
    Ok(())
}

/// The first problem of a request object's fields, in the order the checks
/// run: the top-level fields, `input`, `include` (when present) and `tools`
/// (when present).
pub open spec fn request_object_error(fields: Seq<(Seq<char>, JsonView)>) -> Option<ApiErrorV> {
    let body = JsonView::Object(fields);
    if top_level_error(fields, 0) is Some {
        top_level_error(fields, 0)
    } else if raw_input_error(body.get("input"@)) is Some {
        raw_input_error(body.get("input"@))
    } else if body.get("include"@) matches Some(v) && include_error(v) is Some {
        include_error(body.get("include"@)->0)
    } else {
        match body.get("tools"@) {
            Some(v) => tools_error(v),
            None => None,
        }
    }
}

/// Checks a request object before it is relayed.
pub fn validate_request_object(body: &JsonValue) -> (r: Result<(), ApiError>)
    requires
        body@ is Object,
    ensures
        check_result(r) == request_object_error(body@->Object_0),
{
    let fields = match body {
        JsonValue::Object(f) => f,
        _ => return Ok(()),
    };
    match validate_top_level_fields(fields) {
        Ok(()) => {}
        Err(e) => return Err(e),
    }
    match validate_raw_input(body.get("input")) {
        Ok(()) => {}
        Err(e) => return Err(e),
    }
    match body.get("include") {
        Some(v) => match validate_include(v) {
            Ok(()) => {}
            Err(e) => return Err(e),
        },
        None => {}
    }
    match body.get("tools") {
        Some(v) => validate_tools(v),
        None => Ok(()),
    }
}

/// A relayed field name: one the shim passes on to the upstream.
proof fn lemma_relayed_name_accepted(k: Seq<char>)
    requires
        ({
            ||| k == "model"@
            ||| k == "input"@
            ||| k == "instructions"@
            ||| k == "include"@
            ||| k == "client_metadata"@
            ||| k == "previous_response_id"@
            ||| k == "prompt_cache_key"@
            ||| k == "store"@
            ||| k == "stream"@
            ||| k == "max_output_tokens"@
            ||| k == "temperature"@
            ||| k == "top_p"@
            ||| k == "tools"@
            ||| k == "tool_choice"@
            ||| k == "parallel_tool_calls"@
            ||| k == "reasoning"@
            ||| k == "text"@
            ||| k == "metadata"@
        }),
    ensures
        top_level_field_error(k) is None,
{
    reveal_strlit("model");
    reveal_strlit("input");
    reveal_strlit("instructions");
    reveal_strlit("include");
    reveal_strlit("client_metadata");
    reveal_strlit("previous_response_id");
    reveal_strlit("prompt_cache_key");
    reveal_strlit("store");
    reveal_strlit("stream");
    reveal_strlit("max_output_tokens");
    reveal_strlit("temperature");
    reveal_strlit("top_p");
    reveal_strlit("tools");
    reveal_strlit("tool_choice");
    reveal_strlit("parallel_tool_calls");
    reveal_strlit("reasoning");
    reveal_strlit("text");
    reveal_strlit("metadata");
    reveal_strlit("conversation");
    reveal_strlit("background");
    reveal_strlit("truncation");
    reveal_strlit("max_tool_calls");
    reveal_strlit("model_verbosity");
    assert("model"@.len() == 5);
    assert("input"@.len() == 5);
    assert("instructions"@.len() == 12);
    assert("include"@.len() == 7);
    assert("client_metadata"@.len() == 15);
    assert("previous_response_id"@.len() == 20);
    assert("prompt_cache_key"@.len() == 16);
    assert("store"@.len() == 5);
    assert("stream"@.len() == 6);
    assert("max_output_tokens"@.len() == 17);
    assert("temperature"@.len() == 11);
    assert("top_p"@.len() == 5);
    assert("tools"@.len() == 5);
    assert("tool_choice"@.len() == 11);
    assert("parallel_tool_calls"@.len() == 19);
    assert("reasoning"@.len() == 9);
    assert("text"@.len() == 4);
    assert("metadata"@.len() == 8);
    assert("conversation"@.len() == 12);
    assert("background"@.len() == 10);
    assert("truncation"@.len() == 10);
    assert("max_tool_calls"@.len() == 14);
    assert("model_verbosity"@.len() == 15);
    assert("instructions"@[0] != "conversation"@[0]);
    assert("client_metadata"@[0] != "model_verbosity"@[0]);
}

proof fn lemma_relayed_fields_pass(fields: Seq<(Seq<char>, JsonView)>, i: int)
    requires
        0 <= i,
        forall|j: int| 0 <= j < fields.len() ==> top_level_field_error(#[trigger] fields[j].0) is None,
    ensures
        top_level_error(fields, i) is None,
    decreases fields.len() - i,
{
    if i < fields.len() {
        lemma_relayed_fields_pass(fields, i + 1);
    }
}

/// A request whose members are all relayed fields (model, input,
/// instructions, include, client_metadata, previous_response_id,
/// prompt_cache_key, store, stream, max_output_tokens, temperature, top_p,
/// tools, tool_choice, parallel_tool_calls, reasoning, text, metadata), with a
/// valid input, include and tools, is accepted.
pub proof fn law_relayed_fields_accepted(fields: Seq<(Seq<char>, JsonView)>)
    requires
        forall|j: int| 0 <= j < fields.len() ==> {
            let k = #[trigger] fields[j].0;
            ||| k == "model"@
            ||| k == "input"@
            ||| k == "instructions"@
            ||| k == "include"@
            ||| k == "client_metadata"@
            ||| k == "previous_response_id"@
            ||| k == "prompt_cache_key"@
            ||| k == "store"@
            ||| k == "stream"@
            ||| k == "max_output_tokens"@
            ||| k == "temperature"@
            ||| k == "top_p"@
            ||| k == "tools"@
            ||| k == "tool_choice"@
            ||| k == "parallel_tool_calls"@
            ||| k == "reasoning"@
            ||| k == "text"@
            ||| k == "metadata"@
        },
        raw_input_error(JsonView::Object(fields).get("input"@)) is None,
        JsonView::Object(fields).get("include"@) matches Some(v) ==> include_error(v) is None,
        JsonView::Object(fields).get("tools"@) matches Some(v) ==> tools_error(v) is None,
    ensures
        request_object_error(fields) is None,
{
    assert forall|j: int| 0 <= j < fields.len() implies top_level_field_error(#[trigger] fields[j].0) is None by {
        lemma_relayed_name_accepted(fields[j].0);
    }
    lemma_relayed_fields_pass(fields, 0);
}

/// Every other member name is refused: the five known but unimplemented
/// fields (conversation, background, truncation, max_tool_calls,
/// model_verbosity) as not implemented, any name outside them and the relayed
/// fields as an unknown parameter.
pub proof fn law_other_fields_refused(k: Seq<char>)
    ensures
        (k == "conversation"@ || k == "background"@ || k == "truncation"@ || k == "max_tool_calls"@ || k == "model_verbosity"@) ==> top_level_field_error(k) == Some(field_not_implemented_error(k)),
        !(k == "model"@ || k == "input"@ || k == "instructions"@ || k == "include"@ || k == "client_metadata"@ || k == "previous_response_id"@ || k == "prompt_cache_key"@ || k == "store"@ || k == "stream"@ || k == "max_output_tokens"@ || k == "temperature"@ || k == "top_p"@ || k == "tools"@ || k == "tool_choice"@ || k == "parallel_tool_calls"@ || k == "reasoning"@ || k == "text"@ || k == "metadata"@) && !(k == "conversation"@ || k == "background"@ || k == "truncation"@ || k == "max_tool_calls"@ || k == "model_verbosity"@) ==> top_level_field_error(k) == Some(unknown_parameter_error(k)),
{
}

} // verus!
