//! The shim configuration: its sections, their defaults, provider profile
//! defaults, validation and the paths it lives at.
use vstd::prelude::*;
use crate::text::{str_eq, is_blank, all_white, owned, chars_of, concat2, concat3, string_from_chars};
use crate::profile::{ProviderProfileConfig, ProviderCapabilities};

verus! {

/// Upstream defaults that come with a provider profile.
pub struct ProfileDefaultValues {
    pub base_url: &'static str,
    pub chat_path: &'static str,
    pub responses_path: &'static str,
    pub api_key_env: &'static str,
}

/// The mathematical content of `ProfileDefaultValues`.
pub struct ProfileDefaultsView {
    pub base_url: Seq<char>,
    pub chat_path: Seq<char>,
    pub responses_path: Seq<char>,
    pub api_key_env: Seq<char>,
}

impl View for ProfileDefaultValues {
    type V = ProfileDefaultsView;

    open spec fn view(&self) -> ProfileDefaultsView {
        ProfileDefaultsView {
            base_url: self.base_url@,
            chat_path: self.chat_path@,
            responses_path: self.responses_path@,
            api_key_env: self.api_key_env@,
        }
    }
}

pub open spec fn pd(base_url: Seq<char>, api_key_env: Seq<char>) -> ProfileDefaultsView {
    ProfileDefaultsView {
        base_url,
        chat_path: "/chat/completions"@,
        responses_path: "/responses"@,
        api_key_env,
    }
}

/// The table of known provider profiles and their upstream defaults.
#[verifier::opaque]
pub open spec fn profile_defaults_table(name: Seq<char>) -> Option<ProfileDefaultsView> {
    if name == "deepseek-chat"@ || name == "deepseek"@ {
        Some(pd("https://api.deepseek.com"@, "DEEPSEEK_API_KEY"@))
    } else if name == "openrouter-chat"@ || name == "openrouter-responses"@ {
        Some(pd("https://openrouter.ai/api/v1"@, "OPENROUTER_API_KEY"@))
    } else if name == "ollama-chat"@ || name == "ollama-responses"@ {
        Some(pd("http://127.0.0.1:11434/v1"@, "OLLAMA_API_KEY"@))
    } else if name == "groq-chat"@ || name == "groq-responses"@ {
        Some(pd("https://api.groq.com/openai/v1"@, "GROQ_API_KEY"@))
    } else if name == "fireworks-chat"@ || name == "fireworks-responses"@ {
        Some(pd("https://api.fireworks.ai/inference/v1"@, "FIREWORKS_API_KEY"@))
    } else if name == "xai-chat"@ || name == "xai-responses"@ {
        Some(pd("https://api.x.ai/v1"@, "XAI_API_KEY"@))
    } else if name == "together-chat"@ {
        Some(pd("https://api.together.xyz/v1"@, "TOGETHER_API_KEY"@))
    } else if name == "alibaba-chat"@ || name == "alibaba-responses"@ {
        Some(pd("https://dashscope-intl.aliyuncs.com/compatible-mode/v1"@, "DASHSCOPE_API_KEY"@))
    } else if name == "gemini-chat"@ {
        Some(pd("https://generativelanguage.googleapis.com/v1beta/openai"@, "GEMINI_API_KEY"@))
    } else if name == "vertex-chat"@ {
        Some(pd("https://aiplatform.googleapis.com/v1"@, "GOOGLE_API_KEY"@))
    } else if name == "moonshot-chat"@ {
        Some(pd("https://api.moonshot.cn/v1"@, "MOONSHOT_API_KEY"@))
    } else if name == "minimax-chat"@ {
        Some(pd("https://api.minimax.chat/v1"@, "MINIMAX_API_KEY"@))
    } else if name == "zai-chat"@ {
        Some(pd("https://api.z.ai/v1"@, "ZAI_API_KEY"@))
    } else if name == "bedrock-chat"@ || name == "bedrock-responses"@ {
        Some(pd("https://bedrock-runtime.us-east-1.amazonaws.com"@, "AWS_ACCESS_KEY_ID"@))
    } else if name == "vllm-chat"@ || name == "vllm-responses"@ {
        Some(pd("http://127.0.0.1:8000/v1"@, "VLLM_API_KEY"@))
    } else if name == "sglang-chat"@ || name == "sglang"@ {
        Some(pd("http://127.0.0.1:30000/v1"@, "SGLANG_API_KEY"@))
    } else if name == "llamacpp-chat"@ || name == "llamacpp-responses"@ {
        Some(pd("http://127.0.0.1:8080/v1"@, "LLAMACPP_API_KEY"@))
    } else {
        None
    }
}

fn defaults(base_url: &'static str, api_key_env: &'static str) -> (r: ProfileDefaultValues)
    ensures
        r@ == pd(base_url@, api_key_env@),
{
    ProfileDefaultValues { base_url, chat_path: "/chat/completions", responses_path: "/responses", api_key_env }
}

/// Profile-specific defaults for the given profile name; `None` for unknown profiles.
pub fn profile_defaults_for_name(profile_name: &str) -> (r: Option<ProfileDefaultValues>)
    ensures
        match r {
            Some(d) => profile_defaults_table(profile_name@) == Some(d@),
            None => profile_defaults_table(profile_name@) is None,
        },
{
    reveal(profile_defaults_table);
    let n = profile_name;
    if str_eq(n, "deepseek-chat") || str_eq(n, "deepseek") {
        Some(defaults("https://api.deepseek.com", "DEEPSEEK_API_KEY"))
    } else if str_eq(n, "openrouter-chat") || str_eq(n, "openrouter-responses") {
        Some(defaults("https://openrouter.ai/api/v1", "OPENROUTER_API_KEY"))
    } else if str_eq(n, "ollama-chat") || str_eq(n, "ollama-responses") {
        Some(defaults("http://127.0.0.1:11434/v1", "OLLAMA_API_KEY"))
    } else if str_eq(n, "groq-chat") || str_eq(n, "groq-responses") {
        Some(defaults("https://api.groq.com/openai/v1", "GROQ_API_KEY"))
    } else if str_eq(n, "fireworks-chat") || str_eq(n, "fireworks-responses") {
        Some(defaults("https://api.fireworks.ai/inference/v1", "FIREWORKS_API_KEY"))
    } else if str_eq(n, "xai-chat") || str_eq(n, "xai-responses") {
        Some(defaults("https://api.x.ai/v1", "XAI_API_KEY"))
    } else if str_eq(n, "together-chat") {
        Some(defaults("https://api.together.xyz/v1", "TOGETHER_API_KEY"))
    } else if str_eq(n, "alibaba-chat") || str_eq(n, "alibaba-responses") {
        Some(defaults("https://dashscope-intl.aliyuncs.com/compatible-mode/v1", "DASHSCOPE_API_KEY"))
    } else if str_eq(n, "gemini-chat") {
        Some(defaults("https://generativelanguage.googleapis.com/v1beta/openai", "GEMINI_API_KEY"))
    } else if str_eq(n, "vertex-chat") {
        Some(defaults("https://aiplatform.googleapis.com/v1", "GOOGLE_API_KEY"))
    } else if str_eq(n, "moonshot-chat") {
        Some(defaults("https://api.moonshot.cn/v1", "MOONSHOT_API_KEY"))
    } else if str_eq(n, "minimax-chat") {
        Some(defaults("https://api.minimax.chat/v1", "MINIMAX_API_KEY"))
    } else if str_eq(n, "zai-chat") {
        Some(defaults("https://api.z.ai/v1", "ZAI_API_KEY"))
    } else if str_eq(n, "bedrock-chat") || str_eq(n, "bedrock-responses") {
        Some(defaults("https://bedrock-runtime.us-east-1.amazonaws.com", "AWS_ACCESS_KEY_ID"))
    } else if str_eq(n, "vllm-chat") || str_eq(n, "vllm-responses") {
        Some(defaults("http://127.0.0.1:8000/v1", "VLLM_API_KEY"))
    } else if str_eq(n, "sglang-chat") || str_eq(n, "sglang") {
        Some(defaults("http://127.0.0.1:30000/v1", "SGLANG_API_KEY"))
    } else if str_eq(n, "llamacpp-chat") || str_eq(n, "llamacpp-responses") {
        Some(defaults("http://127.0.0.1:8080/v1", "LLAMACPP_API_KEY"))
    } else {
        None
    }
}

/// One model advertised in the shim's model catalog.
#[derive(Debug)]
pub struct CatalogModelSpec {
    pub slug: String,
    pub display_name: Option<String>,
    pub description: Option<String>,
    pub context_window: i64,
    pub tool_calling: Option<bool>,
    pub vision: Option<bool>,
    pub reasoning_levels: Option<Vec<String>>,
    pub priority: Option<i64>,
    pub base_instructions: Option<String>,
    pub auto_compact_token_limit: Option<i64>,
    pub supports_search_tool: Option<bool>,
    pub supports_reasoning_summaries: Option<bool>,
    pub apply_patch_tool_type: Option<String>,
    pub supports_image_detail_original: Option<bool>,
}

/// Where the shim listens and how it authenticates callers.
#[derive(Debug)]
pub struct ServerConfig {
    pub listen: String,
    pub base_path: String,
    pub cors: CorsConfig,
    pub auth: AuthConfig,
}

/// Cross-origin settings.
#[derive(Debug)]
pub struct CorsConfig {
    pub enabled: bool,
    pub allow_origins: Vec<String>,
}

/// Bearer-token settings for callers of the shim.
#[derive(Debug)]
pub struct AuthConfig {
    pub mode: String,
    pub accepted_bearer_tokens: Vec<String>,
}

/// A command that prints an upstream bearer token.
#[derive(Debug)]
pub struct AuthCommandConfig {
    pub command: String,
    pub args: Vec<String>,
    pub timeout_ms: u64,
    pub refresh_interval_ms: u64,
    pub cwd: Option<String>,
}

/// How the shim reaches the upstream provider.
#[derive(Debug)]
pub struct UpstreamConfig {
    pub base_url: String,
    pub chat_path: String,
    pub responses_path: String,
    pub models_path: String,
    pub api_key_env: String,
    pub query_params: Vec<(String, String)>,
    pub http_headers: Vec<(String, String)>,
    pub env_http_headers: Vec<(String, String)>,
    pub requires_openai_auth: bool,
    pub auth_command: Option<AuthCommandConfig>,
    pub timeout_seconds: u64,
    pub connect_timeout_seconds: u64,
    pub max_retries: u32,
}

/// The provider profile selection.
#[derive(Debug)]
pub struct ProviderConfig {
    /// Provider profile name: "deepseek-chat", "vllm-responses", etc.
    pub kind: String,
    /// Legacy mode field, superseded by the profile configuration.
    pub mode: String,
    /// Provider profile configuration (capabilities, endpoint mode, etc.).
    pub profile_config: Option<ProviderProfileConfig>,
}

/// The default model, model name mapping and advertised catalog.
#[derive(Debug)]
pub struct ModelsConfig {
    pub default: String,
    pub map: Vec<(String, String)>,
    pub catalog: Vec<CatalogModelSpec>,
}

/// A block that older configs carried; it is rejected by validation.
#[derive(Debug)]
pub struct FeaturesConfig {
    pub streaming: bool,
    pub tools: bool,
    pub parallel_tool_calls: bool,
    pub structured_outputs: bool,
    pub multimodal_images: bool,
    pub previous_response_id: bool,
}

/// Global reasoning settings.
#[derive(Debug)]
pub struct ReasoningSettings {
    pub enabled: bool,
    /// Default reasoning effort: "low", "medium", "high", "xhigh".
    pub effort: String,
    pub expose_reasoning_to_client: bool,
    pub persist_reasoning_for_tool_calls: bool,
}

/// Where response state is kept and for how long.
#[derive(Debug)]
pub struct StateConfig {
    pub backend: String,
    pub ttl_seconds: u64,
    pub cleanup_interval_seconds: u64,
    pub sqlite_path: Option<String>,
}

/// Logging settings.
#[derive(Debug)]
pub struct LoggingConfig {
    pub level: String,
    pub redact_api_keys: bool,
    pub redact_message_content: bool,
    pub log_sse_events: bool,
}

/// The whole shim configuration.
#[derive(Debug)]
pub struct Config {
    pub server: ServerConfig,
    pub upstream: UpstreamConfig,
    pub provider: ProviderConfig,
    pub models: ModelsConfig,
    pub features: Option<FeaturesConfig>,
    pub reasoning: ReasoningSettings,
    pub state: StateConfig,
    pub logging: LoggingConfig,
}

pub fn default_auth_timeout() -> (r: u64)
    ensures r == 5000,
{
    5000
}

pub fn default_auth_refresh() -> (r: u64)
    ensures r == 300000,
{
    300000
}

pub fn default_listen() -> (r: String)
    ensures r@ == "127.0.0.1:8787"@,
{
    owned("127.0.0.1:8787")
}

pub fn default_base_path() -> (r: String)
    ensures r@ == "/v1"@,
{
    owned("/v1")
}

pub fn default_auth_mode() -> (r: String)
    ensures r@ == "optional-bearer"@,
{
    owned("optional-bearer")
}

pub fn default_upstream_base() -> (r: String)
    ensures r@ == "https://api.deepseek.com"@,
{
    owned("https://api.deepseek.com")
}

pub fn default_responses_path() -> (r: String)
    ensures r@ == "/responses"@,
{
    owned("/responses")
}

pub fn default_chat_path() -> (r: String)
    ensures r@ == "/chat/completions"@,
{
    owned("/chat/completions")
}

pub fn default_models_path() -> (r: String)
    ensures r@ == "/models"@,
{
    owned("/models")
}

pub fn default_upstream_key_env() -> (r: String)
    ensures r@ == "DEEPSEEK_API_KEY"@,
{
    owned("DEEPSEEK_API_KEY")
}

pub fn default_timeout() -> (r: u64)
    ensures r == 900,
{
    900
}

pub fn default_connect_timeout() -> (r: u64)
    ensures r == 30,
{
    30
}

pub fn default_provider_kind() -> (r: String)
    ensures r@ == "deepseek-chat"@,
{
    owned("deepseek-chat")
}

pub fn default_effort() -> (r: String)
    ensures r@ == "high"@,
{
    owned("high")
}

pub fn default_model() -> (r: String)
    ensures r@ == "deepseek-v4-pro"@,
{
    owned("deepseek-v4-pro")
}

pub fn default_state_backend() -> (r: String)
    ensures r@ == "memory"@,
{
    owned("memory")
}

pub fn default_ttl() -> (r: u64)
    ensures r == 86400,
{
    86400
}

pub fn default_cleanup_interval() -> (r: u64)
    ensures r == 3600,
{
    3600
}

pub fn default_log_level() -> (r: String)
    ensures r@ == "info"@,
{
    owned("info")
}

pub fn default_true() -> (r: bool)
    ensures r,
{
    true
}

impl ServerConfig {
    pub fn default() -> (r: Self)
        ensures
            r.listen@ == "127.0.0.1:8787"@,
            r.base_path@ == "/v1"@,
            !r.cors.enabled,
            r.cors.allow_origins@.len() == 0,
            r.auth.mode@ == "optional-bearer"@,
            r.auth.accepted_bearer_tokens@.len() == 0,
    {
        ServerConfig {
            listen: default_listen(),
            base_path: default_base_path(),
            cors: CorsConfig { enabled: false, allow_origins: Vec::new() },
            auth: AuthConfig::default(),
        }
    }
}

impl AuthConfig {
    pub fn default() -> (r: Self)
        ensures
            r.mode@ == "optional-bearer"@,
            r.accepted_bearer_tokens@.len() == 0,
    {
        AuthConfig { mode: default_auth_mode(), accepted_bearer_tokens: Vec::new() }
    }
}

impl UpstreamConfig {
    pub fn default() -> (r: Self)
        ensures
            r.base_url@ == "https://api.deepseek.com"@,
            r.chat_path@ == "/chat/completions"@,
            r.responses_path@ == "/responses"@,
            r.models_path@ == "/models"@,
            r.api_key_env@ == "DEEPSEEK_API_KEY"@,
            r.query_params@.len() == 0,
            r.http_headers@.len() == 0,
            r.env_http_headers@.len() == 0,
            !r.requires_openai_auth,
            r.auth_command is None,
            r.timeout_seconds == 900,
            r.connect_timeout_seconds == 30,
            r.max_retries == 2,
    {
        UpstreamConfig {
            base_url: default_upstream_base(),
            chat_path: default_chat_path(),
            responses_path: default_responses_path(),
            models_path: default_models_path(),
            api_key_env: default_upstream_key_env(),
            query_params: Vec::new(),
            http_headers: Vec::new(),
            env_http_headers: Vec::new(),
            requires_openai_auth: false,
            auth_command: None,
            timeout_seconds: default_timeout(),
            connect_timeout_seconds: default_connect_timeout(),
            max_retries: 2,
        }
    }
}

impl ProviderConfig {
    pub fn default() -> (r: Self)
        ensures
            r.kind@ == "deepseek-chat"@,
            r.mode@.len() == 0,
            r.profile_config is None,
    {
        ProviderConfig { kind: default_provider_kind(), mode: String::new(), profile_config: None }
    }
}

impl ModelsConfig {
    pub fn default() -> (r: Self)
        ensures
            r.default@ == "deepseek-v4-pro"@,
            r.map@.len() == 0,
            r.catalog@.len() == 0,
    {
        ModelsConfig { default: default_model(), map: Vec::new(), catalog: Vec::new() }
    }
}

impl FeaturesConfig {
    pub fn default() -> (r: Self)
        ensures
            r.streaming && r.tools && r.parallel_tool_calls && r.structured_outputs
                && r.multimodal_images && r.previous_response_id,
    {
        FeaturesConfig {
            streaming: true,
            tools: true,
            parallel_tool_calls: true,
            structured_outputs: true,
            multimodal_images: true,
            previous_response_id: true,
        }
    }
}

impl ReasoningSettings {
    pub fn default() -> (r: Self)
        ensures
            !r.enabled,
            r.effort@ == "high"@,
            !r.expose_reasoning_to_client,
            r.persist_reasoning_for_tool_calls,
    {
        ReasoningSettings {
            enabled: false,
            effort: default_effort(),
            expose_reasoning_to_client: false,
            persist_reasoning_for_tool_calls: true,
        }
    }
}

impl StateConfig {
    pub fn default() -> (r: Self)
        ensures
            r.backend@ == "memory"@,
            r.ttl_seconds == 86400,
            r.cleanup_interval_seconds == 3600,
            r.sqlite_path is None,
    {
        StateConfig {
            backend: default_state_backend(),
            ttl_seconds: default_ttl(),
            cleanup_interval_seconds: default_cleanup_interval(),
            sqlite_path: None,
        }
    }
}

impl LoggingConfig {
    pub fn default() -> (r: Self)
        ensures
            r.level@ == "info"@,
            r.redact_api_keys,
            !r.redact_message_content,
            !r.log_sse_events,
    {
        LoggingConfig {
            level: default_log_level(),
            redact_api_keys: true,
            redact_message_content: false,
            log_sse_events: false,
        }
    }
}

/// The value mapped to `key` by the first pair that names it.
pub open spec fn pair_lookup(m: Seq<(String, String)>, key: Seq<char>) -> Option<Seq<char>>
    decreases m.len(),
{
    if m.len() == 0 {
        None
    } else if m[0].0@ == key {
        Some(m[0].1@)
    } else {
        pair_lookup(m.drop_first(), key)
    }
}

/// Whether a catalog entry is unusable: a blank slug or a non-positive context window.
pub open spec fn model_is_bad(m: CatalogModelSpec) -> bool {
    all_white(m.slug@) || m.context_window <= 0
}

/// The index of the first unusable catalog entry at or after `i`.
pub open spec fn first_bad_model(cat: Seq<CatalogModelSpec>, i: int) -> Option<int>
    decreases cat.len() - i,
{
    if i < 0 || i >= cat.len() {
        None
    } else if model_is_bad(cat[i]) {
        Some(i)
    } else {
        first_bad_model(cat, i + 1)
    }
}

/// Whether some catalog entry has the slug `slug`.
pub open spec fn catalog_has_slug(cat: Seq<CatalogModelSpec>, slug: Seq<char>) -> bool {
    exists|i: int| 0 <= i < cat.len() && (#[trigger] cat[i]).slug@ == slug
}

/// Why a configuration is rejected.
#[derive(Debug)]
pub enum ConfigError {
    BasePathNotV1,
    FeaturesNotAccepted,
    CatalogAndDefaultMissing,
    EmptySlug,
    NonPositiveContextWindow(String),
    DefaultNotInCatalog(String),
}

/// The mathematical content of a `ConfigError`.
pub enum ConfigErrorView {
    BasePathNotV1,
    FeaturesNotAccepted,
    CatalogAndDefaultMissing,
    EmptySlug,
    NonPositiveContextWindow(Seq<char>),
    DefaultNotInCatalog(Seq<char>),
}

impl View for ConfigError {
    type V = ConfigErrorView;

    open spec fn view(&self) -> ConfigErrorView {
        match self {
            ConfigError::BasePathNotV1 => ConfigErrorView::BasePathNotV1,
            ConfigError::FeaturesNotAccepted => ConfigErrorView::FeaturesNotAccepted,
            ConfigError::CatalogAndDefaultMissing => ConfigErrorView::CatalogAndDefaultMissing,
            ConfigError::EmptySlug => ConfigErrorView::EmptySlug,
            ConfigError::NonPositiveContextWindow(s) => ConfigErrorView::NonPositiveContextWindow(s@),
            ConfigError::DefaultNotInCatalog(s) => ConfigErrorView::DefaultNotInCatalog(s@),
        }
    }
}

/// The model name the upstream receives for a requested model.
pub open spec fn resolved_model(c: Config, requested: Seq<char>) -> Seq<char> {
    match pair_lookup(c.models.map@, requested) {
        Some(v) => v,
        None => requested,
    }
}

/// The first rule a configuration breaks, checked in order, or `None`.
pub open spec fn validation_error(c: Config) -> Option<ConfigErrorView> {
    let cat = c.models.catalog@;
    if c.server.base_path@ != "/v1"@ {
        Some(ConfigErrorView::BasePathNotV1)
    } else if c.features is Some {
        Some(ConfigErrorView::FeaturesNotAccepted)
    } else if cat.len() == 0 && all_white(c.models.default@) {
        Some(ConfigErrorView::CatalogAndDefaultMissing)
    } else if cat.len() == 0 {
        None
    } else if let Some(i) = first_bad_model(cat, 0) {
        if all_white(cat[i].slug@) {
            Some(ConfigErrorView::EmptySlug)
        } else {
            Some(ConfigErrorView::NonPositiveContextWindow(cat[i].slug@))
        }
    } else if !catalog_has_slug(cat, resolved_model(c, c.models.default@)) {
        Some(ConfigErrorView::DefaultNotInCatalog(resolved_model(c, c.models.default@)))
    } else {
        None
    }
}

impl ConfigError {
    /// The message shown for the error.
    pub fn message(&self) -> (r: String)
        ensures
            match self@ {
                ConfigErrorView::BasePathNotV1 => r@ == "server.base_path must be '/v1'. codex-shim routes are fixed and do not honor custom base paths."@,
                ConfigErrorView::FeaturesNotAccepted => r@ == "features.* is no longer accepted in shim config. Remove the 'features' block; runtime behavior is derived from provider capabilities and model catalog metadata."@,
                ConfigErrorView::CatalogAndDefaultMissing => r@ == "models.catalog is empty and models.default is not set; set models.default for auto-catalog generation, or define models.catalog explicitly"@,
                ConfigErrorView::EmptySlug => r@ == "models.catalog entries must have a non-empty slug"@,
                ConfigErrorView::NonPositiveContextWindow(s) => r@ == "models.catalog entry '"@ + s + "' must have a positive context_window"@,
                ConfigErrorView::DefaultNotInCatalog(s) => r@ == "models.default resolves to '"@ + s + "' but models.catalog does not contain that slug"@,
            },
    {
        match self {
            ConfigError::BasePathNotV1 => owned("server.base_path must be '/v1'. codex-shim routes are fixed and do not honor custom base paths."),
            ConfigError::FeaturesNotAccepted => owned("features.* is no longer accepted in shim config. Remove the 'features' block; runtime behavior is derived from provider capabilities and model catalog metadata."),
            ConfigError::CatalogAndDefaultMissing => owned("models.catalog is empty and models.default is not set; set models.default for auto-catalog generation, or define models.catalog explicitly"),
            ConfigError::EmptySlug => owned("models.catalog entries must have a non-empty slug"),
            ConfigError::NonPositiveContextWindow(s) => concat3("models.catalog entry '", s.as_str(), "' must have a positive context_window"),
            ConfigError::DefaultNotInCatalog(s) => concat3("models.default resolves to '", s.as_str(), "' but models.catalog does not contain that slug"),
        }
    }
}

/// The value of `key` in an ordered list of pairs: the first pair naming it.
pub fn lookup_pair<'a>(m: &'a Vec<(String, String)>, key: &str) -> (r: Option<&'a String>)
    ensures
        match r {
            Some(v) => pair_lookup(m@, key@) == Some(v@),
            None => pair_lookup(m@, key@) is None,
        },
{
    let mut i: usize = 0;
    assert(m@.skip(0) =~= m@);
    while i < m.len()
        invariant
            i <= m@.len(),
            pair_lookup(m@, key@) == pair_lookup(m@.skip(i as int), key@),
        decreases m@.len() - i,
    {
        if str_eq(m[i].0.as_str(), key) {
            return Some(&m[i].1);
        }
        assert(m@.skip(i as int).drop_first() =~= m@.skip(i + 1));
        i = i + 1;
    }
    None
}

impl Config {
    /// A configuration with every section at its default.
    pub fn default() -> (r: Self)
        ensures
            r.server.listen@ == "127.0.0.1:8787"@,
            r.server.base_path@ == "/v1"@,
            r.upstream.base_url@ == "https://api.deepseek.com"@,
            r.upstream.api_key_env@ == "DEEPSEEK_API_KEY"@,
            r.upstream.chat_path@ == "/chat/completions"@,
            r.upstream.responses_path@ == "/responses"@,
            r.provider.kind@ == "deepseek-chat"@,
            r.provider.profile_config is None,
            r.models.default@ == "deepseek-v4-pro"@,
            r.models.map@.len() == 0,
            r.models.catalog@.len() == 0,
            r.features is None,
            !r.reasoning.enabled,
            r.reasoning.effort@ == "high"@,
            r.state.backend@ == "memory"@,
            r.logging.level@ == "info"@,
    {
        Config {
            server: ServerConfig::default(),
            upstream: UpstreamConfig::default(),
            provider: ProviderConfig::default(),
            models: ModelsConfig::default(),
            features: None,
            reasoning: ReasoningSettings::default(),
            state: StateConfig::default(),
            logging: LoggingConfig::default(),
        }
    }

    /// The upstream model name for a model Codex requested: its mapping, or itself.
    pub fn resolve_model(&self, requested: &str) -> (r: String)
        ensures
            r@ == resolved_model(*self, requested@),
    {
        match lookup_pair(&self.models.map, requested) {
            Some(v) => v.clone(),
            None => owned(requested),
        }
    }

    /// Checks the configuration and reports the first rule it breaks.
    #[verifier::loop_isolation(false)]
    pub fn validate(&self) -> (r: Result<(), ConfigError>)
        ensures
            match r {
                Ok(()) => validation_error(*self) is None,
                Err(e) => validation_error(*self) == Some(e@),
            },
    {
        if !str_eq(self.server.base_path.as_str(), "/v1") {
            return Err(ConfigError::BasePathNotV1);
        }
        if self.features.is_some() {
            return Err(ConfigError::FeaturesNotAccepted);
        }
        let n = self.models.catalog.len();
        if n == 0 && is_blank(self.models.default.as_str()) {
            return Err(ConfigError::CatalogAndDefaultMissing);
        }
        if n != 0 {
            let ghost cat = self.models.catalog@;
            let mut i: usize = 0;
            while i < n
                invariant
                    n == cat.len(),
                    cat == self.models.catalog@,
                    i <= n,
                    first_bad_model(cat, 0) == first_bad_model(cat, i as int),
                decreases n - i,
            {
                let model = &self.models.catalog[i];
                if is_blank(model.slug.as_str()) {
                    return Err(ConfigError::EmptySlug);
                }
                if model.context_window <= 0 {
                    return Err(ConfigError::NonPositiveContextWindow(model.slug.clone()));
                }
                i = i + 1;
            }
            let default_resolved = self.resolve_model(self.models.default.as_str());
            let mut j: usize = 0;
            let mut found = false;
            while j < n
                invariant
                    n == cat.len(),
                    cat == self.models.catalog@,
                    j <= n,
                    found == exists|k: int| 0 <= k < j && (#[trigger] cat[k]).slug@ == default_resolved@,
                decreases n - j,
            {
                if self.models.catalog[j].slug == default_resolved {
                    found = true;
                }
                j = j + 1;
            }
            if !found {
                return Err(ConfigError::DefaultNotInCatalog(default_resolved));
            }
        }
        Ok(())
    }
}

/// `rel` joined onto `base` as `Path::join` does on Unix: an absolute `rel`
/// replaces `base`; otherwise a separator is put between them when needed.
pub open spec fn joined(base: Seq<char>, rel: Seq<char>) -> Seq<char> {
    if rel.len() > 0 && rel[0] == '/' {
        rel
    } else if base.len() == 0 {
        rel
    } else if base.last() == '/' {
        base + rel
    } else {
        base + seq!['/'] + rel
    }
}

/// `Path::join` on Unix paths held as strings.
pub fn join_path(base: &str, rel: &str) -> (r: String)
    ensures
        r@ == joined(base@, rel@),
{
    let rc = chars_of(rel);
    if rc.len() > 0 && rc[0] == '/' {
        return owned(rel);
    }
    let bc = chars_of(base);
    if bc.len() == 0 {
        owned(rel)
    } else if bc[bc.len() - 1] == '/' {
        concat2(base, rel)
    } else {
        proof { reveal_strlit("/"); }
        concat3(base, "/", rel)
    }
}

/// Whether `path` starts with `~/` or `~\`.
pub open spec fn has_tilde_prefix(path: Seq<char>) -> bool {
    path.len() >= 2 && path[0] == '~' && (path[1] == '/' || path[1] == '\\')
}

/// `path` with a leading `~` replaced by the home directory, when one is known.
pub open spec fn tilde_expanded(path: Seq<char>, home: Option<Seq<char>>) -> Seq<char> {
    match home {
        Some(h) => if path == seq!['~'] {
            h
        } else if has_tilde_prefix(path) {
            joined(h, path.skip(2))
        } else {
            path
        },
        None => path,
    }
}

pub open spec fn opt_view(o: Option<&str>) -> Option<Seq<char>> {
    match o {
        Some(s) => Some(s@),
        None => None,
    }
}

/// Expands `~`, `~/...` and `~\...` against `home`.
pub fn expand_tilde_with_home(path: &str, home: Option<&str>) -> (r: String)
    ensures
        r@ == tilde_expanded(path@, opt_view(home)),
{
    let pc = chars_of(path);
    match home {
        Some(h) => {
            if pc.len() == 1 && pc[0] == '~' {
                assert(path@ == seq!['~']);
                owned(h)
            } else if pc.len() >= 2 && pc[0] == '~' && (pc[1] == '/' || pc[1] == '\\') {
                assert(path@ != seq!['~']);
                let rest = string_from_chars(&pc, 2, pc.len());
                assert(rest@ == path@.skip(2));
                join_path(h, rest.as_str())
            } else {
                assert(path@ != seq!['~'] ==> true);
                owned(path)
            }
        }
        None => owned(path),
    }
}

/// `~/.codex-shim/config.yaml` under `home`.
pub fn default_config_path_for_home(home: Option<&str>) -> (r: Option<String>)
    ensures
        match home {
            Some(h) => r is Some && r->0@ == joined(joined(h@, ".codex-shim"@), "config.yaml"@),
            None => r is None,
        },
{
    match home {
        Some(h) => {
            let dir = join_path(h, ".codex-shim");
            Some(join_path(dir.as_str(), "config.yaml"))
        }
        None => None,
    }
}

/// `~/.codex-shim/store.db` under `home`, or under `temp_dir` when no home is known.
pub fn default_state_store_path_for_home(home: Option<&str>, temp_dir: &str) -> (r: String)
    ensures
        r@ == joined(joined(match home { Some(h) => h@, None => temp_dir@ }, ".codex-shim"@), "store.db"@),
{
    let base = match home {
        Some(h) => h,
        None => temp_dir,
    };
    let dir = join_path(base, ".codex-shim");
    join_path(dir.as_str(), "store.db")
}

/// Values read from `CODEX_SHIM_*` environment variables, when set.
#[derive(Debug, Default)]
pub struct EnvOverrides {
    pub listen: Option<String>,
    pub upstream_base_url: Option<String>,
    pub upstream_api_key_env: Option<String>,
    pub upstream_chat_path: Option<String>,
    pub provider_kind: Option<String>,
    pub reasoning_enabled: Option<String>,
    pub logging_level: Option<String>,
}

/// `str::parse::<bool>` falling back to `false`.
pub open spec fn parsed_flag(s: Seq<char>) -> bool {
    s == "true"@
}

pub open spec fn or_old(o: Option<String>, old: Seq<char>) -> Seq<char> {
    match o {
        Some(v) => v@,
        None => old,
    }
}

/// The profile name whose defaults and capabilities a configuration uses.
pub open spec fn selected_profile_name(c: Config) -> Seq<char> {
    match c.provider.profile_config {
        Some(pc) => pc.profile@,
        None => c.provider.kind@,
    }
}

/// `provider.kind` after it is synced from an explicit profile: only a blank
/// or default kind is replaced.
pub open spec fn synced_kind(c: Config) -> Seq<char> {
    let kind = c.provider.kind@;
    match c.provider.profile_config {
        Some(pc) => if pc.profile@.len() > 0 && (kind.len() == 0 || kind == "deepseek-chat"@) && kind != pc.profile@ {
            pc.profile@
        } else {
            kind
        },
        None => kind,
    }
}

/// What filling a config's implicit defaults from its profile gives: `c1`
/// is `c0` with `provider.kind` synced, the upstream URLs and key variable
/// filled when they are still the defaults, and a catalog entry generated for
/// the default model when the catalog is empty; nothing else changes.
pub open spec fn expanded_from_profile(c0: Config, c1: Config, caps: ProviderCapabilities) -> bool {
    &&& c1.provider.kind@ == synced_kind(c0)
    &&& c1.provider.mode == c0.provider.mode
    &&& c1.provider.profile_config == c0.provider.profile_config
    &&& fills_upstream(c0) ==> {
        let d = profile_defaults_table(selected_profile_name(c0))->0;
        &&& c1.upstream.base_url@ == d.base_url
        &&& c1.upstream.chat_path@ == d.chat_path
        &&& c1.upstream.responses_path@ == d.responses_path
        &&& c1.upstream.api_key_env@ == if c0.upstream.api_key_env@ == "DEEPSEEK_API_KEY"@ {
            d.api_key_env
        } else {
            c0.upstream.api_key_env@
        }
        &&& c1.upstream == (UpstreamConfig {
            base_url: c1.upstream.base_url,
            chat_path: c1.upstream.chat_path,
            responses_path: c1.upstream.responses_path,
            api_key_env: c1.upstream.api_key_env,
            ..c0.upstream
        })
    }
    &&& !fills_upstream(c0) ==> c1.upstream == c0.upstream
    &&& generates_catalog(c0) ==> c1.models.catalog@.len() == 1
        && implicit_catalog_entry(c1.models.catalog@[0], c0.models.default@, caps)
    &&& !generates_catalog(c0) ==> c1.models.catalog == c0.models.catalog
    &&& c1.models.default == c0.models.default
    &&& c1.models.map == c0.models.map
    &&& c1.server == c0.server
    &&& c1.features == c0.features
    &&& c1.reasoning == c0.reasoning
    &&& c1.state == c0.state
    &&& c1.logging == c0.logging
}

/// Filling the implicit defaults twice gives what filling them once gave:
/// the second expansion changes no setting.
pub proof fn law_expand_idempotent(c0: Config, c1: Config, c2: Config, caps: ProviderCapabilities)
    requires
        expanded_from_profile(c0, c1, caps),
        expanded_from_profile(c1, c2, caps),
    ensures
        c2.provider.kind@ == c1.provider.kind@,
        c2.provider.mode == c1.provider.mode,
        c2.provider.profile_config == c1.provider.profile_config,
        c2.upstream.base_url@ == c1.upstream.base_url@,
        c2.upstream.chat_path@ == c1.upstream.chat_path@,
        c2.upstream.responses_path@ == c1.upstream.responses_path@,
        c2.upstream.api_key_env@ == c1.upstream.api_key_env@,
        c2.upstream.models_path == c1.upstream.models_path,
        c2.upstream.query_params == c1.upstream.query_params,
        c2.upstream.http_headers == c1.upstream.http_headers,
        c2.upstream.env_http_headers == c1.upstream.env_http_headers,
        c2.upstream.requires_openai_auth == c1.upstream.requires_openai_auth,
        c2.upstream.auth_command == c1.upstream.auth_command,
        c2.upstream.timeout_seconds == c1.upstream.timeout_seconds,
        c2.upstream.connect_timeout_seconds == c1.upstream.connect_timeout_seconds,
        c2.upstream.max_retries == c1.upstream.max_retries,
        c2.models.catalog == c1.models.catalog,
        c2.models.default == c1.models.default,
        c2.models.map == c1.models.map,
        c2.server == c1.server,
        c2.features == c1.features,
        c2.reasoning == c1.reasoning,
        c2.state == c1.state,
        c2.logging == c1.logging,
{
    assert(selected_profile_name(c1) == selected_profile_name(c0));
    assert(synced_kind(c1) == synced_kind(c0));
    if !fills_upstream(c0) {
        assert(!fills_upstream(c1));
    }
}

/// Whether upstream defaults are filled from the profile: the base URL is still
/// the default (or blank), the profile is known, and the kind is not DeepSeek.
pub open spec fn fills_upstream(c: Config) -> bool {
    &&& (c.upstream.base_url@ == "https://api.deepseek.com"@ || c.upstream.base_url@.len() == 0)
    &&& profile_defaults_table(selected_profile_name(c)) is Some
    &&& synced_kind(c) != "deepseek-chat"@
    &&& synced_kind(c) != "deepseek"@
}

/// Whether an implicit catalog entry is generated for the default model.
pub open spec fn generates_catalog(c: Config) -> bool {
    c.models.catalog@.len() == 0 && c.models.default@.len() > 0
}

/// The catalog entry generated for model `slug` from the profile capabilities.
pub open spec fn implicit_catalog_entry(m: CatalogModelSpec, slug: Seq<char>, caps: ProviderCapabilities) -> bool {
    &&& m.slug@ == slug
    &&& m.display_name is Some && m.display_name->0@ == slug
    &&& m.description is None
    &&& m.context_window == 131072
    &&& m.tool_calling == Some(caps.supports_function_tools)
    &&& m.vision == Some(caps.supports_vision_input)
    &&& (caps.supports_reasoning_effort ==> m.reasoning_levels is Some
            && m.reasoning_levels->0@.len() == 1 && m.reasoning_levels->0@[0]@ == "high"@)
    &&& (!caps.supports_reasoning_effort ==> m.reasoning_levels is None)
    &&& m.priority == Some(10i64)
    &&& m.base_instructions is Some && m.base_instructions->0@.len() == 0
    &&& m.auto_compact_token_limit is None
    &&& m.supports_search_tool == Some(false)
    &&& m.supports_reasoning_summaries == Some(false)
    &&& m.apply_patch_tool_type is None
    &&& m.supports_image_detail_original == Some(false)
}

fn implicit_entry(slug: &String, caps: &ProviderCapabilities) -> (m: CatalogModelSpec)
    ensures
        implicit_catalog_entry(m, slug@, *caps),
{
    let reasoning_levels = if caps.supports_reasoning_effort {
        let mut v: Vec<String> = Vec::new();
        v.push(owned("high"));
        Some(v)
    } else {
        None
    };
    CatalogModelSpec {
        slug: slug.clone(),
        display_name: Some(slug.clone()),
        description: None,
        context_window: 131072,
        tool_calling: Some(caps.supports_function_tools),
        vision: Some(caps.supports_vision_input),
        reasoning_levels,
        priority: Some(10),
        base_instructions: Some(String::new()),
        auto_compact_token_limit: None,
        supports_search_tool: Some(false),
        supports_reasoning_summaries: Some(false),
        apply_patch_tool_type: None,
        supports_image_detail_original: Some(false),
    }
}

impl Config {
    /// Applies `CODEX_SHIM_*` overrides: each set value replaces its field;
    /// `reasoning.enabled` becomes whether the value parses as `true`.
    pub fn apply_env_overrides(&mut self, env: &EnvOverrides)
        ensures
            final(self).server.listen@ == or_old(env.listen, old(self).server.listen@),
            final(self).upstream.base_url@ == or_old(env.upstream_base_url, old(self).upstream.base_url@),
            final(self).upstream.api_key_env@ == or_old(env.upstream_api_key_env, old(self).upstream.api_key_env@),
            final(self).upstream.chat_path@ == or_old(env.upstream_chat_path, old(self).upstream.chat_path@),
            final(self).provider.kind@ == or_old(env.provider_kind, old(self).provider.kind@),
            final(self).reasoning.enabled == match env.reasoning_enabled {
                Some(v) => parsed_flag(v@),
                None => old(self).reasoning.enabled,
            },
            final(self).logging.level@ == or_old(env.logging_level, old(self).logging.level@),
            final(self).models == old(self).models,
            final(self).features == old(self).features,
            final(self).state == old(self).state,
            final(self).server.base_path == old(self).server.base_path,
    {
        if let Some(v) = &env.listen {
            self.server.listen = v.clone();
        }
        if let Some(v) = &env.upstream_base_url {
            self.upstream.base_url = v.clone();
        }
        if let Some(v) = &env.upstream_api_key_env {
            self.upstream.api_key_env = v.clone();
        }
        if let Some(v) = &env.upstream_chat_path {
            self.upstream.chat_path = v.clone();
        }
        if let Some(v) = &env.provider_kind {
            self.provider.kind = v.clone();
        }
        if let Some(v) = &env.reasoning_enabled {
            self.reasoning.enabled = str_eq(v.as_str(), "true");
        }
        if let Some(v) = &env.logging_level {
            self.logging.level = v.clone();
        }
    }

    /// Fills implicit defaults from the selected provider profile: syncs
    /// `provider.kind` from the profile, fills upstream URLs from the profile
    /// defaults, and generates a catalog entry for the default model when the
    /// catalog is empty. `caps` are the capabilities of the selected profile.
    pub fn expand_from_profile(&mut self, caps: &ProviderCapabilities)
        ensures
            expanded_from_profile(*old(self), *final(self), *caps),
    {
        let sync = match &self.provider.profile_config {
            Some(pc) => {
                if !pc.profile.as_str().is_empty()
                    && (self.provider.kind.as_str().is_empty() || str_eq(self.provider.kind.as_str(), "deepseek-chat"))
                    && self.provider.kind != pc.profile {
                    Some(pc.profile.clone())
                } else {
                    None
                }
            }
            None => None,
        };
        if let Some(k) = sync {
            self.provider.kind = k;
        }
        assert(self.provider.kind@ == synced_kind(*old(self)));
        let profile_name: String = match &self.provider.profile_config {
            Some(pc) => pc.profile.clone(),
            None => self.provider.kind.clone(),
        };
        assert(profile_name@ == selected_profile_name(*old(self)));
        if str_eq(self.upstream.base_url.as_str(), "https://api.deepseek.com") || self.upstream.base_url.as_str().is_empty() {
            if let Some(d) = profile_defaults_for_name(profile_name.as_str()) {
                if !str_eq(self.provider.kind.as_str(), "deepseek-chat") && !str_eq(self.provider.kind.as_str(), "deepseek") {
                    self.upstream.base_url = owned(d.base_url);
                    self.upstream.chat_path = owned(d.chat_path);
                    self.upstream.responses_path = owned(d.responses_path);
                    if str_eq(self.upstream.api_key_env.as_str(), "DEEPSEEK_API_KEY") {
                        self.upstream.api_key_env = owned(d.api_key_env);
                    }
                }
            }
        }
        if self.models.catalog.len() == 0 && !self.models.default.as_str().is_empty() {
            let entry = implicit_entry(&self.models.default, caps);
            let mut catalog: Vec<CatalogModelSpec> = Vec::new();
            catalog.push(entry);
            self.models.catalog = catalog;
        }
    }
}

/// Whether a file mode lets anyone write the file.
pub fn is_world_writable(mode: u32) -> (r: bool)
    ensures
        r == (mode & 0o002 != 0),
{
    mode & 0o002 != 0
}

/// The warning for a shim config that anyone may write.
pub fn world_writable_warning(path: &str) -> (r: String)
    ensures
        r@ == "Config file is world-writable. Consider: chmod 600 "@ + path@,
{
    concat2("Config file is world-writable. Consider: chmod 600 ", path)
}

/// The verbosity the server logs at.
#[derive(Debug, PartialEq, Eq, Structural, Clone, Copy)]
pub enum LogLevel {
    Debug,
    Info,
    Warn,
    Error,
}

/// The log level named by `logging.level`; anything but `debug`, `warn` or
/// `error` logs at `info`.
pub fn log_level_of(name: &str) -> (r: LogLevel)
    ensures
        r == if name@ == "debug"@ {
            LogLevel::Debug
        } else if name@ == "warn"@ {
            LogLevel::Warn
        } else if name@ == "error"@ {
            LogLevel::Error
        } else {
            LogLevel::Info
        },
{
    if str_eq(name, "debug") {
        LogLevel::Debug
    } else if str_eq(name, "warn") {
        LogLevel::Warn
    } else if str_eq(name, "error") {
        LogLevel::Error
    } else {
        LogLevel::Info
    }
}

} // verus!
