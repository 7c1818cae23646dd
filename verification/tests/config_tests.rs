use codex_shim::config::{
    default_config_path_for_home, default_state_store_path_for_home, expand_tilde_with_home,
    is_world_writable, log_level_of, profile_defaults_for_name, world_writable_warning,
    CatalogModelSpec, Config, FeaturesConfig, LogLevel,
};
use codex_shim::profile::{
    EndpointMode, ProviderCapabilities, ProviderProfileConfig, ReasoningPolicy, StatePolicy,
    ToolPolicy,
};

fn chat_caps() -> ProviderCapabilities {
    ProviderCapabilities {
        endpoint_mode: EndpointMode::ChatCompletionsShim,
        reasoning_policy: ReasoningPolicy::NoReasoning,
        tool_policy: ToolPolicy::FunctionToolsOnly,
        state_policy: StatePolicy::AdapterStateful,
        supports_function_tools: true,
        supports_parallel_tool_calls: true,
        supports_structured_outputs: false,
        supports_json_object: false,
        supports_json_schema: false,
        supports_vision_input: false,
        supports_hosted_web_search: false,
        supports_hosted_file_search: false,
        supports_code_interpreter: false,
        supports_previous_response_id: false,
        supports_reasoning_effort: false,
        supports_usage_in_stream_final: true,
    }
}

fn catalog_entry(slug: &str) -> CatalogModelSpec {
    CatalogModelSpec {
        slug: slug.to_string(),
        display_name: Some(slug.to_string()),
        description: None,
        context_window: 131072,
        tool_calling: Some(true),
        vision: Some(false),
        reasoning_levels: None,
        priority: None,
        base_instructions: None,
        auto_compact_token_limit: None,
        supports_search_tool: Some(false),
        supports_reasoning_summaries: Some(false),
        apply_patch_tool_type: None,
        supports_image_detail_original: Some(false),
    }
}

fn valid_config() -> Config {
    let mut config = Config::default();
    let slug = config.models.default.clone();
    config.models.catalog = vec![catalog_entry(&slug)];
    config
}

#[test]
fn validate_accepts_minimal_catalog_config() {
    valid_config().validate().expect("config should validate");
}

#[test]
fn validate_rejects_non_v1_base_path() {
    let mut config = valid_config();
    config.server.base_path = "/api".into();
    let err = config.validate().unwrap_err().message();
    assert!(err.contains("server.base_path must be '/v1'"));
}

#[test]
fn validate_rejects_features_block() {
    let mut config = valid_config();
    config.features = Some(FeaturesConfig::default());
    let err = config.validate().unwrap_err().message();
    assert!(err.contains("features.* is no longer accepted"));
}

#[test]
fn validate_rejects_empty_catalog_and_empty_default() {
    let mut config = valid_config();
    config.models.catalog.clear();
    config.models.default.clear();
    let err = config.validate().unwrap_err().message();
    assert!(err.contains("models.catalog is empty and models.default is not set"));
}

#[test]
fn validate_accepts_empty_catalog_with_default() {
    let config = Config::default();
    config
        .validate()
        .expect("should accept empty catalog when models.default is set");
}

#[test]
fn validate_rejects_missing_default_model_in_catalog() {
    let mut config = valid_config();
    config.models.catalog[0].slug = "other-model".into();
    let err = config.validate().unwrap_err().message();
    assert!(err.contains("models.default resolves to"));
}

#[test]
fn default_config_path_uses_codex_shim_subdir() {
    let path = default_config_path_for_home(Some("/home/tester")).expect("default config path");
    assert_eq!(path, "/home/tester/.codex-shim/config.yaml");
}

#[test]
fn default_state_store_path_uses_codex_shim_subdir() {
    let path = default_state_store_path_for_home(Some("/home/tester"), "/tmp");
    assert_eq!(path, "/home/tester/.codex-shim/store.db");
}

#[test]
fn expand_tilde_supports_home_root() {
    let path = expand_tilde_with_home("~", Some("/home/tester"));
    assert_eq!(path, "/home/tester");
}

#[test]
fn expand_tilde_supports_forward_slash_paths() {
    let path = expand_tilde_with_home("~/config.yaml", Some("/home/tester"));
    assert_eq!(path, "/home/tester/config.yaml");
}

#[test]
fn expand_tilde_supports_backslash_paths() {
    let path = expand_tilde_with_home("~\\config.yaml", Some("/home/tester"));
    assert_eq!(path, "/home/tester/config.yaml");
}

#[test]
fn expand_tilde_leaves_plain_paths_unchanged() {
    let path = expand_tilde_with_home("config.yaml", Some("/home/tester"));
    assert_eq!(path, "config.yaml");
}

#[test]
fn expand_from_profile_generates_implicit_catalog() {
    let mut config = Config::default();
    config.provider.kind = "ollama-chat".into();
    config.provider.profile_config = Some(ProviderProfileConfig {
        profile: "ollama-chat".into(),
        capabilities: None,
        extra_body: None,
    });
    config.models.default = "qwen3.5:32b".into();
    config.expand_from_profile(&chat_caps());
    assert_eq!(config.models.catalog.len(), 1);
    assert_eq!(config.models.catalog[0].slug, "qwen3.5:32b");
    assert_eq!(config.provider.kind, "ollama-chat");
}

#[test]
fn expand_from_profile_syncs_kind_from_profile() {
    let mut config = Config::default();
    config.provider.kind = "deepseek-chat".into();
    config.provider.profile_config = Some(ProviderProfileConfig {
        profile: "ollama-chat".into(),
        capabilities: None,
        extra_body: None,
    });
    config.models.default = "qwen3.5:32b".into();
    config.expand_from_profile(&chat_caps());
    assert_eq!(config.provider.kind, "ollama-chat");
}

#[test]
fn expand_from_profile_fills_upstream_defaults_of_the_profile() {
    let mut config = Config::default();
    config.provider.profile_config = Some(ProviderProfileConfig {
        profile: "vllm-chat".into(),
        capabilities: None,
        extra_body: None,
    });
    config.expand_from_profile(&chat_caps());
    assert_eq!(config.upstream.base_url, "http://127.0.0.1:8000/v1");
    assert_eq!(config.upstream.api_key_env, "VLLM_API_KEY");
    assert_eq!(config.upstream.chat_path, "/chat/completions");
}

#[test]
fn profile_defaults_for_known_and_unknown_profiles() {
    let d = profile_defaults_for_name("groq-responses").expect("known profile");
    assert_eq!(d.base_url, "https://api.groq.com/openai/v1");
    assert_eq!(d.api_key_env, "GROQ_API_KEY");
    assert_eq!(d.responses_path, "/responses");
    assert!(profile_defaults_for_name("no-such-profile").is_none());
}

#[test]
fn validate_rejects_blank_slug_and_bad_context_window() {
    let mut config = valid_config();
    config.models.catalog.push(catalog_entry("  "));
    let err = config.validate().unwrap_err().message();
    assert_eq!(err, "models.catalog entries must have a non-empty slug");

    let mut config = valid_config();
    config.models.catalog[0].context_window = 0;
    let err = config.validate().unwrap_err().message();
    assert_eq!(
        err,
        "models.catalog entry 'deepseek-v4-pro' must have a positive context_window"
    );
}

#[test]
fn resolve_model_uses_the_first_mapping() {
    let mut config = valid_config();
    config.models.map = vec![
        ("gpt-5".to_string(), "deepseek-v4-pro".to_string()),
        ("gpt-5".to_string(), "ignored".to_string()),
    ];
    assert_eq!(config.resolve_model("gpt-5"), "deepseek-v4-pro");
    assert_eq!(config.resolve_model("other"), "other");
}

#[test]
fn world_writable_configs_are_flagged() {
    assert!(is_world_writable(0o666));
    assert!(is_world_writable(0o602));
    assert!(!is_world_writable(0o644));
    assert!(!is_world_writable(0o600));
    assert_eq!(
        world_writable_warning("/etc/shim.yaml"),
        "Config file is world-writable. Consider: chmod 600 /etc/shim.yaml"
    );
}

#[test]
fn log_level_names_default_to_info() {
    assert_eq!(log_level_of("debug"), LogLevel::Debug);
    assert_eq!(log_level_of("info"), LogLevel::Info);
    assert_eq!(log_level_of("warn"), LogLevel::Warn);
    assert_eq!(log_level_of("error"), LogLevel::Error);
    assert_eq!(log_level_of("trace"), LogLevel::Info);
    assert_eq!(log_level_of(""), LogLevel::Info);
}

#[test]
fn expand_from_profile_twice_changes_nothing_more() {
    let mut config = Config::default();
    config.provider.kind = "deepseek-chat".into();
    config.provider.profile_config = Some(ProviderProfileConfig {
        profile: "vllm-chat".into(),
        capabilities: None,
        extra_body: None,
    });
    config.models.default = "served-model".into();
    config.expand_from_profile(&chat_caps());
    let once = format!("{:?}", config);
    config.expand_from_profile(&chat_caps());
    assert_eq!(format!("{:?}", config), once);
    assert_eq!(config.provider.kind, "vllm-chat");
    assert_eq!(config.models.catalog.len(), 1);
    assert_eq!(config.models.catalog[0].slug, "served-model");
}
