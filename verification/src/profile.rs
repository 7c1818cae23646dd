//! Provider capability descriptions and the overrides a shim config may apply.
use vstd::prelude::*;
use crate::text::str_eq;
use crate::json::JsonValue;

verus! {

/// How the shim talks to the upstream provider.
#[derive(Debug, Clone, Copy, PartialEq, Eq, Structural)]
pub enum EndpointMode {
    ChatCompletionsShim,
    NativeResponses,
    StatelessResponses,
}

/// How reasoning content travels to and from the upstream provider.
#[derive(Debug, Clone, Copy, PartialEq, Eq, Structural)]
pub enum ReasoningPolicy {
    NoReasoning,
    OpenAIResponsesReasoningItem,
    DeepSeekReasoningContent,
    SGLangReasoningContent,
    QwenEnableThinking,
    OpenRouterReasoningDetails,
    GenericReasoningContent,
}

/// Which tools the upstream provider accepts.
#[derive(Debug, Clone, Copy, PartialEq, Eq, Structural)]
pub enum ToolPolicy {
    NoTools,
    FunctionToolsOnly,
    NativeResponsesTools,
}

/// Where conversation state is kept.
#[derive(Debug, Clone, Copy, PartialEq, Eq, Structural)]
pub enum StatePolicy {
    AdapterStateful,
    UpstreamPreviousResponseId,
    UpstreamStatelessFullHistory,
}

/// What an upstream provider supports.
#[derive(Debug, Clone, Copy, PartialEq, Eq, Structural)]
pub struct ProviderCapabilities {
    pub endpoint_mode: EndpointMode,
    pub reasoning_policy: ReasoningPolicy,
    pub tool_policy: ToolPolicy,
    pub state_policy: StatePolicy,
    pub supports_function_tools: bool,
    pub supports_parallel_tool_calls: bool,
    pub supports_structured_outputs: bool,
    pub supports_json_object: bool,
    pub supports_json_schema: bool,
    pub supports_vision_input: bool,
    pub supports_hosted_web_search: bool,
    pub supports_hosted_file_search: bool,
    pub supports_code_interpreter: bool,
    pub supports_previous_response_id: bool,
    pub supports_reasoning_effort: bool,
    pub supports_usage_in_stream_final: bool,
}

/// Capability fields a config may override after the profile preset is loaded.
#[derive(Debug, Clone, Default)]
pub struct ProviderCapabilitiesOverride {
    pub endpoint_mode: Option<String>,
    pub reasoning_policy: Option<String>,
    pub tool_policy: Option<String>,
    pub state_policy: Option<String>,
    pub supports_function_tools: Option<bool>,
    pub supports_parallel_tool_calls: Option<bool>,
    pub supports_structured_outputs: Option<bool>,
    pub supports_json_object: Option<bool>,
    pub supports_json_schema: Option<bool>,
    pub supports_vision_input: Option<bool>,
    pub supports_hosted_web_search: Option<bool>,
    pub supports_hosted_file_search: Option<bool>,
    pub supports_code_interpreter: Option<bool>,
    pub supports_previous_response_id: Option<bool>,
    pub supports_reasoning_effort: Option<bool>,
    pub supports_usage_in_stream_final: Option<bool>,
}

/// The provider profile section of a shim config.
#[derive(Debug)]
pub struct ProviderProfileConfig {
    /// Profile name: "deepseek-chat", "vllm-responses", "sglang-chat", etc.
    pub profile: String,
    /// Capability fields overridden after the profile preset is loaded.
    pub capabilities: Option<ProviderCapabilitiesOverride>,
    /// Extra body fields injected into upstream requests.
    pub extra_body: Option<JsonValue>,
}

/// The name used when a profile section names none.
pub fn default_profile_name() -> (r: String)
    ensures
        r@ == "deepseek-chat"@,
{
    String::from_str("deepseek-chat")
}

#[verifier::opaque]
pub open spec fn endpoint_mode_of(s: Seq<char>) -> EndpointMode {
    if s == "native_responses"@ {
        EndpointMode::NativeResponses
    } else if s == "stateless_responses"@ {
        EndpointMode::StatelessResponses
    } else {
        EndpointMode::ChatCompletionsShim
    }
}

#[verifier::opaque]
pub open spec fn reasoning_policy_of(s: Seq<char>) -> ReasoningPolicy {
    if s == "none"@ {
        ReasoningPolicy::NoReasoning
    } else if s == "openai_responses_reasoning_item"@ {
        ReasoningPolicy::OpenAIResponsesReasoningItem
    } else if s == "deepseek_reasoning_content"@ {
        ReasoningPolicy::DeepSeekReasoningContent
    } else if s == "sglang_reasoning_content"@ {
        ReasoningPolicy::SGLangReasoningContent
    } else if s == "qwen_enable_thinking"@ {
        ReasoningPolicy::QwenEnableThinking
    } else if s == "openrouter_reasoning_details"@ {
        ReasoningPolicy::OpenRouterReasoningDetails
    } else {
        ReasoningPolicy::GenericReasoningContent
    }
}

#[verifier::opaque]
pub open spec fn tool_policy_of(s: Seq<char>) -> ToolPolicy {
    if s == "function_tools_only"@ {
        ToolPolicy::FunctionToolsOnly
    } else if s == "native_responses_tools"@ {
        ToolPolicy::NativeResponsesTools
    } else {
        ToolPolicy::NoTools
    }
}

#[verifier::opaque]
pub open spec fn state_policy_of(s: Seq<char>) -> StatePolicy {
    if s == "adapter_stateful"@ {
        StatePolicy::AdapterStateful
    } else if s == "upstream_previous_response_id"@ {
        StatePolicy::UpstreamPreviousResponseId
    } else if s == "upstream_stateless_full_history"@ {
        StatePolicy::UpstreamStatelessFullHistory
    } else {
        StatePolicy::AdapterStateful
    }
}

/// Parses an endpoint mode name; unknown names select the Chat Completions shim.
pub fn parse_endpoint_mode(s: &str) -> (r: EndpointMode)
    ensures
        r == endpoint_mode_of(s@),
{
    reveal(endpoint_mode_of);
    if str_eq(s, "native_responses") {
        EndpointMode::NativeResponses
    } else if str_eq(s, "stateless_responses") {
        EndpointMode::StatelessResponses
    } else {
        EndpointMode::ChatCompletionsShim
    }
}

/// Parses a reasoning policy name; unknown names select the generic policy.
pub fn parse_reasoning_policy(s: &str) -> (r: ReasoningPolicy)
    ensures
        r == reasoning_policy_of(s@),
{
    reveal(reasoning_policy_of);
    if str_eq(s, "none") {
        ReasoningPolicy::NoReasoning
    } else if str_eq(s, "openai_responses_reasoning_item") {
        ReasoningPolicy::OpenAIResponsesReasoningItem
    } else if str_eq(s, "deepseek_reasoning_content") {
        ReasoningPolicy::DeepSeekReasoningContent
    } else if str_eq(s, "sglang_reasoning_content") {
        ReasoningPolicy::SGLangReasoningContent
    } else if str_eq(s, "qwen_enable_thinking") {
        ReasoningPolicy::QwenEnableThinking
    } else if str_eq(s, "openrouter_reasoning_details") {
        ReasoningPolicy::OpenRouterReasoningDetails
    } else {
        ReasoningPolicy::GenericReasoningContent
    }
}

/// Parses a tool policy name; unknown names select no tools.
pub fn parse_tool_policy(s: &str) -> (r: ToolPolicy)
    ensures
        r == tool_policy_of(s@),
{
    reveal(tool_policy_of);
    if str_eq(s, "function_tools_only") {
        ToolPolicy::FunctionToolsOnly
    } else if str_eq(s, "native_responses_tools") {
        ToolPolicy::NativeResponsesTools
    } else {
        ToolPolicy::NoTools
    }
}

/// Parses a state policy name; unknown names select adapter-side state.
pub fn parse_state_policy(s: &str) -> (r: StatePolicy)
    ensures
        r == state_policy_of(s@),
{
    reveal(state_policy_of);
    if str_eq(s, "adapter_stateful") {
        StatePolicy::AdapterStateful
    } else if str_eq(s, "upstream_previous_response_id") {
        StatePolicy::UpstreamPreviousResponseId
    } else if str_eq(s, "upstream_stateless_full_history") {
        StatePolicy::UpstreamStatelessFullHistory
    } else {
        StatePolicy::AdapterStateful
    }
}

pub open spec fn or_keep(o: Option<bool>, b: bool) -> bool {
    match o {
        Some(v) => v,
        None => b,
    }
}

/// `caps` with every field the override sets replaced by the override's value.
pub open spec fn overridden(caps: ProviderCapabilities, o: ProviderCapabilitiesOverride) -> ProviderCapabilities {
    ProviderCapabilities {
        endpoint_mode: match o.endpoint_mode { Some(s) => endpoint_mode_of(s@), None => caps.endpoint_mode },
        reasoning_policy: match o.reasoning_policy { Some(s) => reasoning_policy_of(s@), None => caps.reasoning_policy },
        tool_policy: match o.tool_policy { Some(s) => tool_policy_of(s@), None => caps.tool_policy },
        state_policy: match o.state_policy { Some(s) => state_policy_of(s@), None => caps.state_policy },
        supports_function_tools: or_keep(o.supports_function_tools, caps.supports_function_tools),
        supports_parallel_tool_calls: or_keep(o.supports_parallel_tool_calls, caps.supports_parallel_tool_calls),
        supports_structured_outputs: or_keep(o.supports_structured_outputs, caps.supports_structured_outputs),
        supports_json_object: or_keep(o.supports_json_object, caps.supports_json_object),
        supports_json_schema: or_keep(o.supports_json_schema, caps.supports_json_schema),
        supports_vision_input: or_keep(o.supports_vision_input, caps.supports_vision_input),
        supports_hosted_web_search: or_keep(o.supports_hosted_web_search, caps.supports_hosted_web_search),
        supports_hosted_file_search: or_keep(o.supports_hosted_file_search, caps.supports_hosted_file_search),
        supports_code_interpreter: or_keep(o.supports_code_interpreter, caps.supports_code_interpreter),
        supports_previous_response_id: or_keep(o.supports_previous_response_id, caps.supports_previous_response_id),
        supports_reasoning_effort: or_keep(o.supports_reasoning_effort, caps.supports_reasoning_effort),
        supports_usage_in_stream_final: or_keep(o.supports_usage_in_stream_final, caps.supports_usage_in_stream_final),
    }
}

fn keep_or(o: Option<bool>, b: bool) -> (r: bool)
    ensures
        r == or_keep(o, b),
{
    match o {
        Some(v) => v,
        None => b,
    }
}

fn pick_endpoint_mode(o: &Option<String>, d: EndpointMode) -> (r: EndpointMode)
    ensures
        r == (match *o { Some(s) => endpoint_mode_of(s@), None => d }),
{
    match o {
        Some(v) => parse_endpoint_mode(v.as_str()),
        None => d,
    }
}

fn pick_reasoning_policy(o: &Option<String>, d: ReasoningPolicy) -> (r: ReasoningPolicy)
    ensures
        r == (match *o { Some(s) => reasoning_policy_of(s@), None => d }),
{
    match o {
        Some(v) => parse_reasoning_policy(v.as_str()),
        None => d,
    }
}

fn pick_tool_policy(o: &Option<String>, d: ToolPolicy) -> (r: ToolPolicy)
    ensures
        r == (match *o { Some(s) => tool_policy_of(s@), None => d }),
{
    match o {
        Some(v) => parse_tool_policy(v.as_str()),
        None => d,
    }
}

fn pick_state_policy(o: &Option<String>, d: StatePolicy) -> (r: StatePolicy)
    ensures
        r == (match *o { Some(s) => state_policy_of(s@), None => d }),
{
    match o {
        Some(v) => parse_state_policy(v.as_str()),
        None => d,
    }
}

/// Applies the fields an override sets on top of a capability preset.
pub fn apply_capability_overrides(caps: ProviderCapabilities, overrides: &ProviderCapabilitiesOverride) -> (r: ProviderCapabilities)
    ensures
        r == overridden(caps, *overrides),
{
    let endpoint_mode = pick_endpoint_mode(&overrides.endpoint_mode, caps.endpoint_mode);
    let reasoning_policy = pick_reasoning_policy(&overrides.reasoning_policy, caps.reasoning_policy);
    let tool_policy = pick_tool_policy(&overrides.tool_policy, caps.tool_policy);
    let state_policy = pick_state_policy(&overrides.state_policy, caps.state_policy);
    ProviderCapabilities {
        endpoint_mode,
        reasoning_policy,
        tool_policy,
        state_policy,
        supports_function_tools: keep_or(overrides.supports_function_tools, caps.supports_function_tools),
        supports_parallel_tool_calls: keep_or(overrides.supports_parallel_tool_calls, caps.supports_parallel_tool_calls),
        supports_structured_outputs: keep_or(overrides.supports_structured_outputs, caps.supports_structured_outputs),
        supports_json_object: keep_or(overrides.supports_json_object, caps.supports_json_object),
        supports_json_schema: keep_or(overrides.supports_json_schema, caps.supports_json_schema),
        supports_vision_input: keep_or(overrides.supports_vision_input, caps.supports_vision_input),
        supports_hosted_web_search: keep_or(overrides.supports_hosted_web_search, caps.supports_hosted_web_search),
        supports_hosted_file_search: keep_or(overrides.supports_hosted_file_search, caps.supports_hosted_file_search),
        supports_code_interpreter: keep_or(overrides.supports_code_interpreter, caps.supports_code_interpreter),
        supports_previous_response_id: keep_or(overrides.supports_previous_response_id, caps.supports_previous_response_id),
        supports_reasoning_effort: keep_or(overrides.supports_reasoning_effort, caps.supports_reasoning_effort),
        supports_usage_in_stream_final: keep_or(overrides.supports_usage_in_stream_final, caps.supports_usage_in_stream_final),
    }
}

/// Applying the same override twice changes nothing more than applying it once.
pub proof fn lemma_override_idempotent(caps: ProviderCapabilities, o: ProviderCapabilitiesOverride)
    ensures
        overridden(overridden(caps, o), o) == overridden(caps, o),
{
}

/// An override that sets nothing leaves the capabilities unchanged.
pub proof fn lemma_empty_override_is_identity(caps: ProviderCapabilities, o: ProviderCapabilitiesOverride)
    requires
        o.endpoint_mode is None,
        o.reasoning_policy is None,
        o.tool_policy is None,
        o.state_policy is None,
        o.supports_function_tools is None,
        o.supports_parallel_tool_calls is None,
        o.supports_structured_outputs is None,
        o.supports_json_object is None,
        o.supports_json_schema is None,
        o.supports_vision_input is None,
        o.supports_hosted_web_search is None,
        o.supports_hosted_file_search is None,
        o.supports_code_interpreter is None,
        o.supports_previous_response_id is None,
        o.supports_reasoning_effort is None,
        o.supports_usage_in_stream_final is None,
    ensures
        overridden(caps, o) == caps,
{
}

/// The label the GUI shows for an endpoint mode.
pub fn endpoint_mode_label(mode: EndpointMode) -> (r: String)
    ensures
        r@ == match mode {
            EndpointMode::ChatCompletionsShim => "chat_shim"@,
            EndpointMode::NativeResponses => "native_responses"@,
            EndpointMode::StatelessResponses => "stateless_responses"@,
        },
{
    match mode {
        EndpointMode::ChatCompletionsShim => String::from_str("chat_shim"),
        EndpointMode::NativeResponses => String::from_str("native_responses"),
        EndpointMode::StatelessResponses => String::from_str("stateless_responses"),
    }
}

} // verus!
