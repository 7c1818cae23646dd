use codex_shim::codex_config::{
    merge_codex_config_document, merged_codex_config, parse_toml_document, project_trust_document,
    set_project_trust,
};
use codex_shim::config::{CatalogModelSpec, Config};
use codex_shim::doctor::{
    build_desktop_doctor_report, CatalogState, DoctorError, DoctorInputs, GlobalConfigState,
};
use codex_shim::integration::{
    backup_path, backup_rotation, catalog_path_in_home, codex_home_candidate, BackupStep, check_trust_request, config_write_needed, plan_cli_install, default_codex_home_dir_for_home,
    effective_provider_id, install_base_url, normalize_toml, project_catalog_path,
    project_config_path, resolve_install_web_search_mode, resolve_target, CodexIntegrationOptions,
    DesktopCheck, DesktopCheckStatus, DesktopDoctorReport, IntegrationError,
};
use codex_shim::profile::{
    EndpointMode, ProviderCapabilities, ReasoningPolicy, StatePolicy, ToolPolicy,
};
use toml_edit::DocumentMut;

fn caps(hosted_web_search: bool) -> ProviderCapabilities {
    ProviderCapabilities {
        endpoint_mode: EndpointMode::ChatCompletionsShim,
        reasoning_policy: ReasoningPolicy::DeepSeekReasoningContent,
        tool_policy: ToolPolicy::FunctionToolsOnly,
        state_policy: StatePolicy::AdapterStateful,
        supports_function_tools: true,
        supports_parallel_tool_calls: true,
        supports_structured_outputs: false,
        supports_json_object: true,
        supports_json_schema: false,
        supports_vision_input: false,
        supports_hosted_web_search: hosted_web_search,
        supports_hosted_file_search: false,
        supports_code_interpreter: false,
        supports_previous_response_id: false,
        supports_reasoning_effort: true,
        supports_usage_in_stream_final: true,
    }
}

fn sample_catalog_spec(supports_search_tool: bool) -> CatalogModelSpec {
    CatalogModelSpec {
        slug: "mock-model".into(),
        display_name: Some("mock-model".into()),
        description: None,
        context_window: 131072,
        tool_calling: Some(true),
        vision: Some(false),
        reasoning_levels: Some(vec!["high".into()]),
        priority: Some(10),
        base_instructions: None,
        auto_compact_token_limit: None,
        supports_search_tool: Some(supports_search_tool),
        supports_reasoning_summaries: Some(false),
        apply_patch_tool_type: None,
        supports_image_detail_original: Some(false),
    }
}

fn sample_config(provider_kind: &str, supports_search_tool: bool) -> Config {
    let mut config = Config::default();
    config.provider.kind = provider_kind.into();
    config.models.default = "mock-model".into();
    config.models.catalog = vec![sample_catalog_spec(supports_search_tool)];
    config
}

fn parse(text: &str) -> DocumentMut {
    text.parse::<DocumentMut>().expect("parse TOML")
}

fn doctor_report_subject<'a>(report: &'a DesktopDoctorReport, subject: &str) -> &'a DesktopCheck {
    report
        .checks
        .iter()
        .find(|check| check.subject == subject)
        .expect("missing doctor check")
}

#[test]
fn merge_codex_config_writes_top_level_catalog_pointer() {
    let mut doc = DocumentMut::new();
    merge_codex_config_document(
        &mut doc,
        "codex_shim",
        "deepseek-v4-pro",
        "/tmp/codex/model-catalog-shim.json",
        "http://127.0.0.1:8787/v1",
        Some("LOCAL_SHIM_TOKEN"),
        None,
    )
    .expect("merge should succeed");

    assert_eq!(doc["model_provider"].as_str(), Some("codex_shim"));
    assert_eq!(doc["model"].as_str(), Some("deepseek-v4-pro"));
    assert_eq!(
        doc["model_catalog_json"].as_str(),
        Some("/tmp/codex/model-catalog-shim.json")
    );
    assert_eq!(doc["web_search"].as_str(), Some("disabled"));
    assert_eq!(
        doc["model_providers"]["codex_shim"]["base_url"].as_str(),
        Some("http://127.0.0.1:8787/v1")
    );
    assert_eq!(
        doc["model_providers"]["codex_shim"]["wire_api"].as_str(),
        Some("responses")
    );
    assert_eq!(
        doc["model_providers"]["codex_shim"]["supports_websockets"].as_bool(),
        Some(false)
    );
}

#[test]
fn merge_codex_config_preserves_existing_web_search_when_not_overridden() {
    let mut doc = parse("\nweb_search = \"live\"\n[model_providers.other]\nname = \"Other\"\n");
    merge_codex_config_document(
        &mut doc,
        "codex_shim",
        "deepseek-v4-pro",
        "/tmp/codex/model-catalog-shim.json",
        "http://127.0.0.1:8787/v1",
        Some("LOCAL_SHIM_TOKEN"),
        None,
    )
    .expect("merge should succeed");

    assert_eq!(doc["web_search"].as_str(), Some("live"));
    assert_eq!(doc["model_providers"]["other"]["name"].as_str(), Some("Other"));
}

#[test]
fn merge_codex_config_removes_legacy_provider_local_catalog_path() {
    let mut doc = parse(
        "\n[model_providers.codex_shim]\nname = \"codex-shim\"\nmodel_catalog_json = \"/wrong/place.json\"\n",
    );
    merge_codex_config_document(
        &mut doc,
        "codex_shim",
        "deepseek-v4-pro",
        "/tmp/codex/model-catalog-shim.json",
        "http://127.0.0.1:8787/v1",
        Some("LOCAL_SHIM_TOKEN"),
        None,
    )
    .expect("merge should succeed");

    assert!(doc["model_providers"]["codex_shim"]
        .as_table()
        .is_some_and(|table| !table.contains_key("model_catalog_json")));
    assert_eq!(
        doc["model_catalog_json"].as_str(),
        Some("/tmp/codex/model-catalog-shim.json")
    );
}

#[test]
fn merge_codex_config_rejects_existing_auth_block() {
    let mut doc = parse("\n[model_providers.codex_shim.auth]\ncommand = \"/bin/true\"\n");
    let err = merge_codex_config_document(
        &mut doc,
        "codex_shim",
        "deepseek-v4-pro",
        "/tmp/codex/model-catalog-shim.json",
        "http://127.0.0.1:8787/v1",
        Some("LOCAL_SHIM_TOKEN"),
        None,
    )
    .unwrap_err()
    .message();
    assert!(err.contains("auth block"));
}

#[test]
fn default_codex_home_dir_uses_codex_subdir() {
    let path = default_codex_home_dir_for_home(Some("/home/tester")).expect("default path");
    assert_eq!(path, "/home/tester/.codex");
}

#[test]
fn resolve_catalog_path_defaults_inside_codex_home() {
    let codex_home = "/work/fixtures/codex-home";
    let path = catalog_path_in_home(codex_home, None, Some("/home/tester"));
    assert_eq!(path, "/work/fixtures/codex-home/model-catalog-shim.json");
}

#[test]
fn merge_codex_config_can_omit_env_key_for_local_loopback() {
    let mut doc = DocumentMut::new();
    merge_codex_config_document(
        &mut doc,
        "codex_shim",
        "deepseek-v4-pro",
        "/tmp/codex/model-catalog-shim.json",
        "http://127.0.0.1:8787/v1",
        None,
        None,
    )
    .expect("merge should succeed");

    assert!(doc["model_providers"]["codex_shim"]
        .as_table()
        .is_some_and(|table| !table.contains_key("env_key")));
    assert!(doc["model_providers"]["codex_shim"]
        .as_table()
        .is_some_and(|table| !table.contains_key("env_key_instructions")));
}

#[test]
fn resolve_install_web_search_mode_rejects_unsupported_live() {
    let config = sample_config("deepseek-chat", false);
    let err = resolve_install_web_search_mode(Some("live"), &caps(false), &config.models.catalog)
        .unwrap_err();
    assert!(err.message().contains("hosted web search"));
}

#[test]
fn merge_refusals_come_in_order() {
    let mut doc = DocumentMut::new();
    let err = merge_codex_config_document(&mut doc, "  ", "m", "/c.json", "http://x", None, None);
    assert!(matches!(err, Err(IntegrationError::EmptyProviderId)));

    let mut doc = DocumentMut::new();
    let err = merge_codex_config_document(&mut doc, "openai", "m", "/c.json", "http://x", None, None);
    assert_eq!(
        err.unwrap_err().message(),
        "provider_id 'openai' is reserved by Codex; choose a different custom provider ID"
    );

    let mut doc = DocumentMut::new();
    let err = merge_codex_config_document(&mut doc, "codex_shim", "m", "/c.json", "http://x", None, Some("sometimes"));
    assert_eq!(
        err.unwrap_err().message(),
        "invalid web_search mode 'sometimes'; expected one of: disabled, cached, live"
    );

    let mut doc = parse("model_providers = \"nope\"\n");
    let err = merge_codex_config_document(&mut doc, "codex_shim", "m", "/c.json", "http://x", None, None);
    assert_eq!(err.unwrap_err().message(), "model_providers must be a TOML table");

    let mut doc = parse("[model_providers]\ncodex_shim = 3\n");
    let err = merge_codex_config_document(&mut doc, "codex_shim", "m", "/c.json", "http://x", None, None);
    assert_eq!(err.unwrap_err().message(), "model_providers.codex_shim must be a TOML table");
}

#[test]
fn merge_sets_web_search_mode_and_env_key_instructions() {
    let mut doc = parse("web_search = \"cached\"\nkeep = 1\n");
    merge_codex_config_document(
        &mut doc,
        "my_shim",
        "model-a",
        "/cat.json",
        "http://127.0.0.1:9/v1",
        Some("SHIM_KEY"),
        Some("live"),
    )
    .expect("merge");
    assert_eq!(doc["web_search"].as_str(), Some("live"));
    assert_eq!(doc["keep"].as_integer(), Some(1));
    assert_eq!(doc["model_providers"]["my_shim"]["name"].as_str(), Some("codex-shim"));
    assert_eq!(doc["model_providers"]["my_shim"]["env_key"].as_str(), Some("SHIM_KEY"));
    assert_eq!(
        doc["model_providers"]["my_shim"]["env_key_instructions"].as_str(),
        Some("Set SHIM_KEY before starting Codex.")
    );
}

#[test]
fn merged_codex_config_is_idempotent() {
    let first = merged_codex_config("", "codex_shim", "m", "/c.json", "http://x/v1", None, None)
        .expect("first merge");
    assert!(first.ends_with('\n'));
    let second = merged_codex_config(&first, "codex_shim", "m", "/c.json", "http://x/v1", None, None)
        .expect("second merge");
    assert_eq!(first, second);
    assert!(!config_write_needed(Some(&first), &second));
    assert!(config_write_needed(None, &second));
    assert!(config_write_needed(Some("other = 1\n"), &second));
}

#[test]
fn merged_codex_config_refuses_invalid_toml() {
    let err = merged_codex_config("this is = = not toml", "codex_shim", "m", "/c.json", "http://x", None, None);
    assert!(matches!(err, Err(IntegrationError::InvalidToml)));
}

#[test]
fn preview_preserves_unmanaged_toml_fields_through_merged_text() {
    let merged = merged_codex_config(
        "\nweb_search = \"live\"\ncustom_flag = true\n[model_providers.other]\nname = \"Other\"\n",
        "codex_shim",
        "deepseek-v4-pro",
        "/tmp/x.json",
        "http://127.0.0.1:8787/v1",
        None,
        Some("disabled"),
    )
    .expect("merge");
    assert!(merged.contains("custom_flag = true"));
    assert!(merged.contains("[model_providers.other]"));
    assert!(merged.contains("model_provider = \"codex_shim\""));
    assert!(merged.contains("web_search = \"disabled\""));
}

#[test]
fn project_trust_marks_the_project_trusted() {
    let text = project_trust_document("model = \"x\"\n", "/repo").expect("trust");
    let doc = parse(&text);
    assert_eq!(doc["projects"]["/repo"]["trust_level"].as_str(), Some("trusted"));
    assert_eq!(doc["model"].as_str(), Some("x"));

    let mut doc = parse("projects = 1\n");
    let err = set_project_trust(&mut doc, "/repo").unwrap_err();
    assert_eq!(err.message(), "projects must be a TOML table");
    let mut doc = parse("[projects]\n\"/repo\" = \"yes\"\n");
    let err = set_project_trust(&mut doc, "/repo").unwrap_err();
    assert_eq!(err.message(), "projects.<path> must be a TOML table");
}

#[test]
fn parse_toml_document_treats_blank_text_as_empty() {
    let doc = parse_toml_document("   \n").expect("blank text");
    assert_eq!(doc.to_string(), "");
    assert!(parse_toml_document("[[[").is_none());
}

#[test]
fn resolve_target_uses_project_scoped_paths() {
    let config = sample_config("deepseek-chat", false);
    let options = CodexIntegrationOptions {
        project_dir: Some("/work/repo".into()),
        trust_project: true,
        ..Default::default()
    };
    let resolved = resolve_target(&config, &options, &caps(false), Some("/work/repo"), Some("/home/t/.codex"))
        .expect("resolve");
    assert_eq!(resolved.mode, "project");
    assert_eq!(resolved.provider_id, "codex_shim");
    assert_eq!(resolved.target_model, "mock-model");
    assert_eq!(resolved.target_path, "/work/repo/.codex/config.toml");
    assert_eq!(resolved.catalog_path, "/work/repo/.codex/model-catalog-shim.json");
    assert_eq!(resolved.trust_target_path.as_deref(), Some("/home/t/.codex/config.toml"));
    assert_eq!(resolved.base_url, "http://127.0.0.1:8787/v1");
    assert_eq!(resolved.effective_web_search.as_deref(), Some("disabled"));
}

#[test]
fn resolve_target_global_and_refusals() {
    let config = sample_config("deepseek-chat", false);
    let options = CodexIntegrationOptions::default();
    let resolved = resolve_target(&config, &options, &caps(false), None, Some("/home/t/.codex"))
        .expect("resolve");
    assert_eq!(resolved.mode, "global");
    assert_eq!(resolved.target_path, "/home/t/.codex/config.toml");
    assert_eq!(resolved.catalog_path, "/home/t/.codex/model-catalog-shim.json");
    assert!(resolved.trust_target_path.is_none());

    let missing = CodexIntegrationOptions { model: Some("nope".into()), ..Default::default() };
    let err = resolve_target(&config, &missing, &caps(false), None, Some("/h")).unwrap_err();
    assert_eq!(
        err.message(),
        "model 'nope' is not present in shim models.catalog. Available models: mock-model"
    );

    let custom = CodexIntegrationOptions {
        provider_id: "custom_provider".into(),
        project_dir: Some("/work/repo".into()),
        ..Default::default()
    };
    let err = resolve_target(&config, &custom, &caps(false), Some("/work/repo"), None).unwrap_err();
    assert!(err.message().contains("provider_id 'codex_shim'"));

    let err = resolve_target(&config, &options, &caps(false), None, None).unwrap_err();
    assert!(matches!(err, IntegrationError::CodexHomeUnresolved));
}

#[test]
fn paths_and_helpers() {
    assert_eq!(project_config_path("/p"), "/p/.codex/config.toml");
    assert_eq!(project_catalog_path("/p/"), "/p/.codex/model-catalog-shim.json");
    assert_eq!(backup_path("/c/config.toml", 3), "/c/config.toml.bak.3");
    assert_eq!(normalize_toml("a = 1".to_string()), "a = 1\n");
    assert_eq!(normalize_toml("a = 1\n".to_string()), "a = 1\n");
    assert_eq!(effective_provider_id(" "), "codex_shim");
    assert_eq!(effective_provider_id("mine"), "mine");
    let config = Config::default();
    assert_eq!(install_base_url(&config, None), "http://127.0.0.1:8787/v1");
    assert_eq!(install_base_url(&config, Some("http://h/v1")), "http://h/v1");
    assert_eq!(
        catalog_path_in_home("/h/.codex", Some("~/cat.json"), Some("/home/me")),
        "/home/me/cat.json"
    );
    assert_eq!(catalog_path_in_home("/h/.codex", Some("sub/cat.json"), None), "/h/.codex/sub/cat.json");
}

fn installed_inputs(trust: bool) -> DoctorInputs {
    let project_text = merged_codex_config(
        "",
        "codex_shim",
        "mock-model",
        "/root/repo/.codex/model-catalog-shim.json",
        "http://127.0.0.1:8787/v1",
        None,
        Some("disabled"),
    )
    .expect("project config");
    let global_text = if trust {
        project_trust_document("", "/root/repo").expect("trust")
    } else {
        String::new()
    };
    DoctorInputs {
        project_dir: "/root/repo".into(),
        project_config_path: "/root/repo/.codex/config.toml".into(),
        project_config_text: Some(project_text),
        catalog_path: "/root/repo/.codex/model-catalog-shim.json".into(),
        catalog: CatalogState::Matches,
        global_config: GlobalConfigState::Present("/root/codex-home/config.toml".into(), global_text),
    }
}

#[test]
fn desktop_doctor_reports_supported_project_install() {
    let config = sample_config("deepseek-chat", false);
    let report = build_desktop_doctor_report(&config, &caps(false), &installed_inputs(true), "codex_shim")
        .expect("doctor report");
    assert!(!report.has_unsupported(), "report: {:?}", report);
    assert_eq!(doctor_report_subject(&report, "project_trust").status, DesktopCheckStatus::Supported);
    assert_eq!(
        doctor_report_subject(&report, "legacy_non_shim_threads").status,
        DesktopCheckStatus::Gated
    );
}

#[test]
fn desktop_doctor_reports_untrusted_project_as_unsupported() {
    let config = sample_config("deepseek-chat", false);
    let report = build_desktop_doctor_report(&config, &caps(false), &installed_inputs(false), "codex_shim")
        .expect("doctor report");
    assert!(report.has_unsupported(), "report: {:?}", report);
    assert_eq!(doctor_report_subject(&report, "project_trust").status, DesktopCheckStatus::Unsupported);
    assert_eq!(
        doctor_report_subject(&report, "project_trust").detail,
        "global Codex config does not mark '/root/repo' as trusted"
    );
}

#[test]
fn desktop_doctor_details_and_errors() {
    let config = sample_config("deepseek-chat", false);
    let inputs = DoctorInputs {
        project_dir: "/r".into(),
        project_config_path: "/r/.codex/config.toml".into(),
        project_config_text: Some("model_provider = \"other\"\nmodel = \"ghost\"\nweb_search = \"live\"\n".into()),
        catalog_path: "/r/.codex/model-catalog-shim.json".into(),
        catalog: CatalogState::Missing,
        global_config: GlobalConfigState::Unresolved("no home".into()),
    };
    let report = build_desktop_doctor_report(&config, &caps(false), &inputs, "custom").expect("report");
    let lines = report.lines();
    assert_eq!(lines[0], "[unsupported] provider_id: desktop project support requires provider_id 'codex_shim'; got 'custom'");
    assert_eq!(lines[1], "[supported] project_config: found project config at /r/.codex/config.toml");
    assert_eq!(
        lines[2],
        "[unsupported] project_model_provider: project config model_provider is Some(\"other\"); expected 'custom'"
    );
    assert_eq!(
        lines[3],
        "[unsupported] project_model: project config model 'ghost' is not present in shim models.catalog"
    );
    assert_eq!(
        lines[4],
        "[unsupported] project_model_catalog_path: project config model_catalog_json is None; expected /r/.codex/model-catalog-shim.json"
    );
    assert_eq!(
        lines[5],
        "[unsupported] project_provider_block: missing [model_providers.custom] block in project config"
    );
    assert_eq!(
        lines[6],
        "[unsupported] web_search: top-level web_search = 'live' but the active shim profile/catalog does not advertise hosted web search for every model"
    );
    assert_eq!(lines[7], "[unsupported] project_catalog: missing project catalog /r/.codex/model-catalog-shim.json");
    assert_eq!(lines[8], "[unsupported] project_trust: could not resolve CODEX_HOME for trust validation: no home");
    assert_eq!(lines.len(), 10);

    let bad = DoctorInputs { project_config_text: Some("[[[".into()), ..inputs };
    let err = build_desktop_doctor_report(&config, &caps(false), &bad, "codex_shim").unwrap_err();
    assert!(matches!(err, DoctorError::InvalidToml(p) if p == "/r/.codex/config.toml"));
}

#[test]
fn cli_install_needs_a_project_to_trust() {
    assert!(check_trust_request(false, false).is_ok());
    assert!(check_trust_request(true, true).is_ok());
    let err = check_trust_request(true, false).unwrap_err();
    assert_eq!(err.message(), "--trust-project requires --project-dir");
}

#[test]
fn cli_install_plan_checks_in_order() {
    let config = sample_config("deepseek-chat", false);
    let plan = plan_cli_install(&config, &caps(false), None, "codex_shim", false, false, None).expect("plan");
    assert_eq!(plan.model, "mock-model");
    assert_eq!(plan.web_search.as_deref(), Some("disabled"));

    let missing = plan_cli_install(&config, &caps(false), Some("other"), "codex_shim", false, false, None)
        .unwrap_err();
    assert_eq!(
        missing.message(),
        "model 'other' is not present in shim models.catalog. Available models: mock-model"
    );

    let live = plan_cli_install(&config, &caps(false), None, "codex_shim", false, false, Some("live"))
        .unwrap_err();
    assert!(matches!(live, IntegrationError::WebSearchUnsupported(_)));

    let other_id = plan_cli_install(&config, &caps(false), None, "mine", true, false, None).unwrap_err();
    assert!(matches!(other_id, IntegrationError::ProjectProviderId));
    assert!(plan_cli_install(&config, &caps(false), None, "mine", false, true, None).is_ok());

    let with_path = plan_cli_install(&config, &caps(false), None, "codex_shim", true, true, None).unwrap_err();
    assert_eq!(
        with_path.message(),
        "--catalog-path is not supported with --project-dir; desktop installs use a stable in-project catalog path"
    );

    let searchable = sample_config("deepseek-chat", true);
    let plan = plan_cli_install(&searchable, &caps(true), None, "codex_shim", true, false, None).expect("plan");
    assert!(plan.web_search.is_none());
}

#[test]
fn backup_rotation_moves_each_backup_up_one() {
    assert_eq!(
        backup_rotation([true, true, true, true]),
        vec![
            BackupStep::Remove(3),
            BackupStep::Rename(2, 3),
            BackupStep::Rename(1, 2),
            BackupStep::Rename(0, 1),
            BackupStep::CopyConfig,
        ]
    );
    assert_eq!(backup_rotation([false, false, false, false]), vec![BackupStep::CopyConfig]);
    assert_eq!(
        backup_rotation([true, false, true, false]),
        vec![BackupStep::Rename(2, 3), BackupStep::Rename(0, 1), BackupStep::CopyConfig]
    );
}

#[test]
fn backups_roll_keeping_four_newest_first() {
    let mut slots: Vec<Option<&str>> = vec![Some("v3"), Some("v2"), None, Some("v0")];
    let exists = [0usize, 1, 2, 3].map(|i| slots[i].is_some());
    for step in backup_rotation(exists) {
        match step {
            BackupStep::Remove(n) => slots[n as usize] = None,
            BackupStep::Rename(from, to) => {
                slots[to as usize] = slots[from as usize];
                slots[from as usize] = None;
            }
            BackupStep::CopyConfig => slots[0] = Some("v4"),
        }
    }
    assert_eq!(slots, vec![Some("v4"), Some("v3"), Some("v2"), None]);
}

#[test]
fn codex_home_prefers_explicit_then_environment_then_home() {
    assert_eq!(
        codex_home_candidate(Some("~/custom"), Some("/env/codex"), Some("/home/t")).as_deref(),
        Some("/home/t/custom")
    );
    assert_eq!(
        codex_home_candidate(None, Some("/env/codex"), Some("/home/t")).as_deref(),
        Some("/env/codex")
    );
    assert_eq!(codex_home_candidate(None, None, Some("/home/t")).as_deref(), Some("/home/t/.codex"));
    assert_eq!(codex_home_candidate(None, None, None), None);
}

#[test]
fn merge_keeps_unmanaged_keys_of_the_provider_table_and_comments() {
    let existing = "# my settings\nmodel = \"old\"\n[model_providers.codex_shim]\n# keep me\nrequest_max_retries = 4\nname = \"legacy\"\n";
    let mut doc = parse(existing);
    merge_codex_config_document(
        &mut doc,
        "codex_shim",
        "deepseek-v4-pro",
        "/tmp/c.json",
        "http://127.0.0.1:8787/v1",
        None,
        Some("cached"),
    )
    .expect("merge");
    assert_eq!(doc["model_providers"]["codex_shim"]["request_max_retries"].as_integer(), Some(4));
    assert_eq!(doc["model_providers"]["codex_shim"]["name"].as_str(), Some("codex-shim"));
    assert_eq!(doc["model"].as_str(), Some("deepseek-v4-pro"));
    assert_eq!(doc["web_search"].as_str(), Some("cached"));
    let rendered = doc.to_string();
    assert!(rendered.contains("# my settings"));
    assert!(rendered.contains("# keep me"));
}

#[test]
fn cli_messages_name_the_command_line_flags() {
    let auth = IntegrationError::AuthBlockPresent("model_providers.codex_shim".into());
    assert_eq!(
        auth.cli_message(),
        "model_providers.codex_shim already contains an auth block. Remove it or use a different --provider-id before installing env_key-based shim auth."
    );
    assert!(auth.message().contains("different provider ID"));
    assert_eq!(
        IntegrationError::CodexHomeUnresolved.cli_message(),
        "could not determine CODEX_HOME; set --codex-home or CODEX_HOME"
    );
    assert_eq!(
        IntegrationError::CodexHomeUnresolved.message(),
        "could not determine CODEX_HOME; set codex_home or CODEX_HOME"
    );
    assert_eq!(
        IntegrationError::TrustWithoutProject.cli_message(),
        IntegrationError::TrustWithoutProject.message()
    );
}

#[test]
fn merge_refusals_before_writing_leave_the_document_unchanged() {
    let text = "keep = 1 # note\n\n[model_providers.other]\nname = \"Other\"\n";
    for (provider_id, web_search) in [("  ", None), ("openai", None), ("ollama", None), ("codex_shim", Some("sometimes"))] {
        let mut doc = parse(text);
        let before = doc.to_string();
        let result = merge_codex_config_document(&mut doc, provider_id, "m", "/c.json", "http://x", None, web_search);
        assert!(result.is_err());
        assert_eq!(doc.to_string(), before);
    }
}
