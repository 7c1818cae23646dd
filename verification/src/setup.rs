//! The command-line setup: upstream defaults for a chosen profile, the config
//! files the setup wizard writes, and the checks and reports of the
//! `validate`, `probe` and `explain-catalog` commands.
use vstd::prelude::*;
use crate::config::{ProfileDefaultValues, ProfileDefaultsView, profile_defaults_table, profile_defaults_for_name, pd, Config,
    CatalogModelSpec, catalog_has_slug, resolved_model};
use crate::text::{owned, concat2, concat3, str_eq, push_signed_decimal, signed_decimal, chars_of, push_char};
use crate::json::{JsonValue, JsonView, members_view, values_view, push_member, push_value, object_of, array_of, string_value};
use crate::relay::joined_with;

verus! {

/// Upstream defaults for a profile the setup wizard offers: the profile's own,
/// or placeholders for a profile without any.
pub open spec fn setup_defaults(name: Seq<char>) -> ProfileDefaultsView {
    match profile_defaults_table(name) {
        Some(d) => d,
        None => pd("https://api.example.com/v1"@, "PROVIDER_API_KEY"@),
    }
}

/// Upstream defaults for the setup wizard.
pub fn profile_defaults(profile_name: &str) -> (r: ProfileDefaultValues)
    ensures
        r@ == setup_defaults(profile_name@),
{
    match profile_defaults_for_name(profile_name) {
        Some(d) => d,
        None => ProfileDefaultValues {
            base_url: "https://api.example.com/v1",
            chat_path: "/chat/completions",
            responses_path: "/responses",
            api_key_env: "PROVIDER_API_KEY",
        },
    }
}

/// The `server` and `upstream` sections of a generated config.
pub open spec fn upstream_section(listen: Seq<char>, base_url: Option<Seq<char>>, api_key_env: Seq<char>) -> Seq<char> {
    "server:\n  listen: \""@ + listen + "\"\n\nupstream:\n"@ + match base_url {
        Some(u) => "  base_url: \""@ + u + "\"\n"@,
        None => Seq::empty(),
    } + "  api_key_env: \""@ + api_key_env + "\""@
}

/// The `reasoning_levels` list of the generated catalog entry.
pub open spec fn reasoning_levels_yaml(enabled: bool, supports_effort: bool, effort: Seq<char>) -> Seq<char> {
    if !enabled {
        Seq::empty()
    } else if !supports_effort {
        "\n      reasoning_levels:"@
    } else if effort == "xhigh"@ {
        "\n      reasoning_levels:\n      - xhigh\n      - high"@
    } else {
        "\n      reasoning_levels:\n      - high"@
    }
}

/// The slim config the setup wizard writes: only what the user chose.
pub open spec fn slim_config(
    profile: Seq<char>,
    api_key_env: Seq<char>,
    model: Seq<char>,
    context_window: i64,
    reasoning_enabled: bool,
    supports_effort: bool,
    effort: Seq<char>,
    base_url: Option<Seq<char>>,
    listen: Seq<char>,
) -> Seq<char> {
    "# codex-shim config - generated by `codex-shim setup`\n# Profile: "@ + profile
        + "\n# See: codex-shim config show --yaml  for the full resolved config\n\n"@
        + upstream_section(listen, base_url, api_key_env)
        + "\n\nprovider:\n  profile_config:\n    profile: "@ + profile + "\n\n"@
        + (if reasoning_enabled { "reasoning:\n  enabled: true\n  effort: "@ + effort } else { Seq::empty() })
        + "\n\nmodels:\n  default: \""@ + model + "\"\n  catalog:\n    - slug: \""@ + model
        + "\"\n      context_window: "@ + signed_decimal(context_window as int)
        + reasoning_levels_yaml(reasoning_enabled, supports_effort, effort)
        + "\n\nstate:\n  backend: memory\n  debug_artifact_ttl_seconds: 600\n\nlogging:\n  level: info\n"@
}

/// The slim config YAML of the setup wizard. `supports_reasoning_effort` is
/// whether the profile's preset capabilities support a reasoning effort.
pub fn generate_slim_config(
    profile_name: &str,
    api_key_env: &str,
    model_slug: &str,
    context_window: i64,
    reasoning_enabled: bool,
    supports_reasoning_effort: bool,
    reasoning_effort: &str,
    custom_base_url: Option<&str>,
    listen_addr: &str,
) -> (r: String)
    ensures
        r@ == slim_config(profile_name@, api_key_env@, model_slug@, context_window, reasoning_enabled,
            supports_reasoning_effort, reasoning_effort@, match custom_base_url { Some(u) => Some(u@), None => None },
            listen_addr@),
{
    let mut s = concat2("# codex-shim config - generated by `codex-shim setup`\n# Profile: ", profile_name);
    s.append("\n# See: codex-shim config show --yaml  for the full resolved config\n\n");
    push_upstream_section(&mut s, listen_addr, custom_base_url, api_key_env);
    s.append("\n\nprovider:\n  profile_config:\n    profile: ");
    s.append(profile_name);
    s.append("\n\n");
    push_reasoning_block(&mut s, reasoning_enabled, reasoning_effort);
    s.append("\n\nmodels:\n  default: \"");
    s.append(model_slug);
    s.append("\"\n  catalog:\n    - slug: \"");
    s.append(model_slug);
    s.append("\"\n      context_window: ");
    push_signed_decimal(&mut s, context_window);
    push_levels(&mut s, reasoning_enabled, supports_reasoning_effort, reasoning_effort);
    s.append("\n\nstate:\n  backend: memory\n  debug_artifact_ttl_seconds: 600\n\nlogging:\n  level: info\n");
    s
}

fn push_upstream_section(s: &mut String, listen: &str, base_url: Option<&str>, api_key_env: &str)
    ensures
        final(s)@ == old(s)@ + upstream_section(listen@, match base_url { Some(u) => Some(u@), None => None }, api_key_env@),
{
    let ghost start = s@;
    let mut t = concat3("server:\n  listen: \"", listen, "\"\n\nupstream:\n");
    let ghost head = t@;
    match base_url {
        Some(u) => {
            t.append("  base_url: \"");
            t.append(u);
            t.append("\"\n");
            assert(t@ =~= head + ("  base_url: \""@ + u@ + "\"\n"@));
        }
        None => {
            assert(t@ =~= head + Seq::<char>::empty());
        }
    }
    t.append("  api_key_env: \"");
    t.append(api_key_env);
    t.append("\"");
    s.append(t.as_str());
    assert(s@ =~= start + upstream_section(listen@, match base_url { Some(u) => Some(u@), None => None }, api_key_env@));
}

fn push_reasoning_block(s: &mut String, enabled: bool, effort: &str)
    ensures
        final(s)@ == old(s)@ + (if enabled { "reasoning:\n  enabled: true\n  effort: "@ + effort@ } else { Seq::empty() }),
{
    if enabled {
        s.append(concat2("reasoning:\n  enabled: true\n  effort: ", effort).as_str());
    } else {
        assert(s@ =~= s@ + Seq::<char>::empty());
    }
}

fn push_levels(s: &mut String, enabled: bool, supports_effort: bool, effort: &str)
    ensures
        final(s)@ == old(s)@ + reasoning_levels_yaml(enabled, supports_effort, effort@),
{
    if enabled {
        if !supports_effort {
            s.append("\n      reasoning_levels:");
        } else if str_eq(effort, "xhigh") {
            s.append("\n      reasoning_levels:\n      - xhigh\n      - high");
        } else {
            s.append("\n      reasoning_levels:\n      - high");
        }
    } else {
        assert(s@ =~= s@ + Seq::<char>::empty());
    }
}

/// The config the non-interactive setup writes: the DeepSeek chat profile
/// with its defaults, reasoning on when the profile supports an effort.
pub open spec fn non_interactive_config(supports_effort: bool) -> Seq<char> {
    "# codex-shim config - generated by `codex-shim setup`\n# Profile: deepseek-chat\n#\n# Minimal config. All omitted fields use built-in defaults for this profile.\n# See: examples/all-options.yaml for the full reference.\n\nserver:\n  listen: \"127.0.0.1:8787\"\n\nupstream:\n  base_url: \"https://api.deepseek.com\"\n  chat_path: \"/chat/completions\"\n  responses_path: \"/responses\"\n  api_key_env: \"DEEPSEEK_API_KEY\"\n\nprovider:\n  kind: deepseek-chat\n  profile_config:\n    profile: deepseek-chat\n\nreasoning:\n  enabled: "@
        + (if supports_effort { "true"@ } else { "false"@ })
        + "\n  effort: high\n\nmodels:\n  default: \"deepseek-v4-pro\"\n  catalog:\n    - slug: \"deepseek-v4-pro\"\n      context_window: 131072"@
        + (if supports_effort { "\n      reasoning_levels:\n        - high"@ } else { Seq::empty() })
        + "\n\nstate:\n  backend: memory\n  debug_artifact_ttl_seconds: 600\n\nlogging:\n  level: info\n"@
}

/// The config YAML of the non-interactive setup. `supports_reasoning_effort`
/// is whether the DeepSeek chat preset supports a reasoning effort.
pub fn non_interactive_config_yaml(supports_reasoning_effort: bool) -> (r: String)
    ensures
        r@ == non_interactive_config(supports_reasoning_effort),
{
    let mut s = owned("# codex-shim config - generated by `codex-shim setup`\n# Profile: deepseek-chat\n#\n# Minimal config. All omitted fields use built-in defaults for this profile.\n# See: examples/all-options.yaml for the full reference.\n\nserver:\n  listen: \"127.0.0.1:8787\"\n\nupstream:\n  base_url: \"https://api.deepseek.com\"\n  chat_path: \"/chat/completions\"\n  responses_path: \"/responses\"\n  api_key_env: \"DEEPSEEK_API_KEY\"\n\nprovider:\n  kind: deepseek-chat\n  profile_config:\n    profile: deepseek-chat\n\nreasoning:\n  enabled: ");
    s.append(if supports_reasoning_effort { "true" } else { "false" });
    s.append("\n  effort: high\n\nmodels:\n  default: \"deepseek-v4-pro\"\n  catalog:\n    - slug: \"deepseek-v4-pro\"\n      context_window: 131072");
    if supports_reasoning_effort {
        s.append("\n      reasoning_levels:\n        - high");
    } else {
        assert(s@ =~= s@ + Seq::<char>::empty());
    }
    s.append("\n\nstate:\n  backend: memory\n  debug_artifact_ttl_seconds: 600\n\nlogging:\n  level: info\n");
    s
}

/// A listen address the wizard accepts: non-empty, with a `:`.
pub open spec fn listen_address_ok(s: Seq<char>) -> bool {
    s.len() > 0 && s.contains(':')
}

/// Whether the wizard accepts a listen address.
pub fn is_listen_address(s: &str) -> (r: bool)
    ensures
        r == listen_address_ok(s@),
{
    let cs = chars_of(s);
    let mut i: usize = 0;
    while i < cs.len()
        invariant
            i <= cs@.len(),
            cs@ == s@,
            forall|j: int| 0 <= j < i ==> cs@[j] != ':',
        decreases cs@.len() - i,
    {
        if cs[i] == ':' {
            assert(s@[i as int] == ':');
            return true;
        }
        i = i + 1;
    }
    false
}

/// The base URL Codex is pointed at after the wizard: `http://<listen>/v1`.
pub fn integrate_base_url(listen_addr: &str) -> (r: String)
    ensures
        r@ == "http://"@ + listen_addr@ + "/v1"@,
{
    concat3("http://", listen_addr, "/v1")
}

/// How the wizard summarizes the reasoning choice.
pub fn reasoning_summary(enabled: bool, effort: &str) -> (r: String)
    ensures
        r@ == if enabled { "enabled (effort: "@ + effort@ + ")"@ } else { "disabled"@ },
{
    if enabled {
        concat3("enabled (effort: ", effort, ")")
    } else {
        owned("disabled")
    }
}

/// What the wizard says of the API key variable name it is given: a blank
/// name is refused, and so is a name not set in the current shell (with a
/// reminder that the wizard can go on). `is_set` is whether the trimmed name
/// is set.
pub open spec fn key_env_check_spec(name: Seq<char>, is_set: bool) -> Result<(), Seq<char>> {
    if crate::text::all_white(name) {
        Err("Environment variable name cannot be empty"@)
    } else if is_set {
        Ok(())
    } else {
        Err("Environment variable '"@ + crate::text::trimmed(name)
            + "' is not set in the current shell. You can still continue, but remember to export it before starting the shim."@)
    }
}

/// The wizard's check of the API key variable name.
pub fn key_env_check(name: &str, is_set: bool) -> (r: Result<(), String>)
    ensures
        match key_env_check_spec(name@, is_set) {
            Ok(()) => r is Ok,
            Err(m) => r matches Err(e) && e@ == m,
        },
{
    if crate::text::is_blank(name) {
        Err(owned("Environment variable name cannot be empty"))
    } else if is_set {
        Ok(())
    } else {
        let t = crate::text::trim(name);
        Err(concat3("Environment variable '", t.as_str(),
            "' is not set in the current shell. You can still continue, but remember to export it before starting the shim."))
    }
}

/// The model the wizard proposes: the profile's first recommended model, or
/// a placeholder when it recommends none.
pub fn default_model_slug(recommended: &Vec<String>) -> (r: String)
    ensures
        r@ == if recommended@.len() > 0 { recommended@[0]@ } else { "model-slug"@ },
{
    if recommended.len() > 0 {
        recommended[0].clone()
    } else {
        owned("model-slug")
    }
}

/// Whether `s` starts with `prefix`.
pub open spec fn starts_with(s: Seq<char>, prefix: Seq<char>) -> bool {
    prefix.len() <= s.len() && s.take(prefix.len() as int) == prefix
}

/// The recommended models among the first `n` that start with what was typed, in order.
pub open spec fn model_suggestions_spec(recommended: Seq<Seq<char>>, typed: Seq<char>, n: nat) -> Seq<Seq<char>>
    decreases n,
{
    if n == 0 {
        Seq::empty()
    } else {
        let before = model_suggestions_spec(recommended, typed, (n - 1) as nat);
        if starts_with(recommended[n - 1], typed) { before.push(recommended[n - 1]) } else { before }
    }
}

fn str_starts_with(s: &str, prefix: &str) -> (r: bool)
    ensures
        r == starts_with(s@, prefix@),
{
    let cs = chars_of(s);
    let ps = chars_of(prefix);
    if ps.len() > cs.len() {
        return false;
    }
    let head = crate::text::string_from_chars(&cs, 0, ps.len());
    assert(cs@.subrange(0, ps@.len() as int) =~= cs@.take(ps@.len() as int));
    str_eq(head.as_str(), prefix)
}

/// The completions the wizard offers for a model slug: the recommended
/// models that start with what was typed, in order.
pub fn model_suggestions(recommended: &Vec<String>, typed: &str) -> (r: Vec<String>)
    ensures
        strings_view(r@) == model_suggestions_spec(strings_view(recommended@), typed@, recommended@.len() as nat),
{
    let ghost rv = strings_view(recommended@);
    let mut out: Vec<String> = Vec::new();
    let mut i: usize = 0;
    while i < recommended.len()
        invariant
            i <= recommended@.len(),
            rv == strings_view(recommended@),
            strings_view(out@) == model_suggestions_spec(rv, typed@, i as nat),
        decreases recommended@.len() - i,
    {
        if str_starts_with(recommended[i].as_str(), typed) {
            push_string(&mut out, recommended[i].clone());
        }
        i = i + 1;
    }
    out
}

/// How the summary shows whether the API key variable is set.
pub fn api_key_status(is_set: bool) -> (r: &'static str)
    ensures
        r@ == if is_set { "\u{2713} set"@ } else { "\u{26a0} not set in current shell"@ },
{
    if is_set {
        "\u{2713} set"
    } else {
        "\u{26a0} not set in current shell"
    }
}

/// The next steps printed after a setup that did not install into Codex.
pub fn setup_next_steps(api_key_env: &str, output_path: &str) -> (r: Vec<String>)
    ensures
        strings_view(r@) == seq![
            "Next steps:"@,
            "  1. Export your API key:  export "@ + api_key_env@ + "=\"sk-...\""@,
            "  2. Install Codex config:  codex-shim integrate --config "@ + output_path@,
            "  3. Start the shim:        codex-shim --config "@ + output_path@,
            Seq::empty(),
            "Or run everything in one step:"@,
            "  codex-shim integrate --config "@ + output_path@ + " --start"@,
        ],
{
    let mut out: Vec<String> = Vec::new();
    push_string(&mut out, owned("Next steps:"));
    push_string(&mut out, concat3("  1. Export your API key:  export ", api_key_env, "=\"sk-...\""));
    push_string(&mut out, concat2("  2. Install Codex config:  codex-shim integrate --config ", output_path));
    push_string(&mut out, concat2("  3. Start the shim:        codex-shim --config ", output_path));
    push_string(&mut out, String::new());
    push_string(&mut out, owned("Or run everything in one step:"));
    push_string(&mut out, concat3("  codex-shim integrate --config ", output_path, " --start"));
    out
}

/// `s` with every trailing occurrence of `suffix` removed.
pub open spec fn trim_end_all(s: Seq<char>, suffix: Seq<char>) -> Seq<char>
    decreases s.len(),
{
    if suffix.len() > 0 && suffix.len() <= s.len() && s.subrange(s.len() - suffix.len(), s.len() as int) == suffix {
        trim_end_all(s.subrange(0, s.len() - suffix.len()), suffix)
    } else {
        s
    }
}

fn ends_with_at(cs: &Vec<char>, end: usize, suffix: &Vec<char>) -> (r: bool)
    requires
        end <= cs@.len(),
    ensures
        r == (suffix@.len() <= end && cs@.subrange(end - suffix@.len(), end as int) == suffix@),
{
    if suffix.len() > end {
        return false;
    }
    let start = end - suffix.len();
    let mut i: usize = 0;
    while i < suffix.len()
        invariant
            start + suffix@.len() == end,
            end <= cs@.len(),
            i <= suffix@.len(),
            forall|j: int| 0 <= j < i ==> cs@[start + j] == suffix@[j],
        decreases suffix@.len() - i,
    {
        if cs[start + i] != suffix[i] {
            assert(cs@.subrange(start as int, end as int)[i as int] != suffix@[i as int]);
            return false;
        }
        i = i + 1;
    }
    assert(cs@.subrange(start as int, end as int) =~= suffix@);
    true
}

/// The length of what is left of `cs[..end]` once every trailing `suffix` is removed.
fn trimmed_end_len(cs: &Vec<char>, end: usize, suffix: &Vec<char>) -> (r: usize)
    requires
        end <= cs@.len(),
    ensures
        r <= end,
        cs@.subrange(0, r as int) == trim_end_all(cs@.subrange(0, end as int), suffix@),
    decreases end,
{
    if suffix.len() > 0 && ends_with_at(cs, end, suffix) {
        let next = end - suffix.len();
        proof {
            let s = cs@.subrange(0, end as int);
            assert(s.subrange(s.len() - suffix@.len(), s.len() as int) =~= cs@.subrange(next as int, end as int));
            assert(s.subrange(0, s.len() - suffix@.len()) =~= cs@.subrange(0, next as int));
        }
        trimmed_end_len(cs, next, suffix)
    } else {
        proof {
            let s = cs@.subrange(0, end as int);
            if suffix@.len() > 0 && suffix@.len() <= s.len() {
                assert(s.subrange(s.len() - suffix@.len(), s.len() as int) =~= cs@.subrange(end - suffix@.len(), end as int));
            }
        }
        end
    }
}

/// The URL the setup probe uses: the base URL without trailing `/` and then
/// without trailing `/v1`, since the probe appends the paths itself.
pub fn probe_base_url(base_url: &str) -> (r: String)
    ensures
        r@ == trim_end_all(trim_end_all(base_url@, seq!['/']), "/v1"@),
{
    let cs = chars_of(base_url);
    let mut slash: Vec<char> = Vec::new();
    slash.push('/');
    let v1_str = owned("/v1");
    let v1 = chars_of(v1_str.as_str());
    let a = trimmed_end_len(&cs, cs.len(), &slash);
    let b = trimmed_end_len(&cs, a, &v1);
    proof {
        assert(cs@.subrange(0, cs@.len() as int) =~= cs@);
        assert(cs@.subrange(0, a as int).subrange(0, b as int) =~= cs@.subrange(0, b as int));
    }
    crate::text::string_from_chars(&cs, 0, b)
}

/// The URL the upstream connectivity check of `validate` asks: the base URL
/// without trailing `/`, then the models path.
pub fn connectivity_check_url(base_url: &str, models_path: &str) -> (r: String)
    ensures
        r@ == trim_end_all(base_url@, seq!['/']) + models_path@,
{
    let cs = chars_of(base_url);
    let mut slash: Vec<char> = Vec::new();
    slash.push('/');
    let n = trimmed_end_len(&cs, cs.len(), &slash);
    proof {
        assert(cs@.subrange(0, cs@.len() as int) =~= cs@);
    }
    let head = crate::text::string_from_chars(&cs, 0, n);
    concat2(head.as_str(), models_path)
}

/// The summary `validate` prints of a loaded config.
pub fn config_summary_lines(config: &Config) -> (r: Vec<String>)
    ensures
        strings_view(r@) == seq![
            "Config summary:"@,
            "  Provider:  "@ + config.provider.kind@,
            "  Model:     "@ + config.models.default@,
            "  Upstream:  "@ + config.upstream.base_url@,
            "  Listen:    "@ + config.server.listen@,
            "  Catalog:   "@ + crate::text::decimal(config.models.catalog@.len() as nat) + " model(s)"@,
        ],
{
    let mut out: Vec<String> = Vec::new();
    push_string(&mut out, owned("Config summary:"));
    push_string(&mut out, concat2("  Provider:  ", config.provider.kind.as_str()));
    push_string(&mut out, concat2("  Model:     ", config.models.default.as_str()));
    push_string(&mut out, concat2("  Upstream:  ", config.upstream.base_url.as_str()));
    push_string(&mut out, concat2("  Listen:    ", config.server.listen.as_str()));
    let mut catalog = owned("  Catalog:   ");
    crate::text::push_decimal(&mut catalog, config.models.catalog.len() as u64);
    catalog.append(" model(s)");
    push_string(&mut out, catalog);
    out
}

// ---------------------------------------------------------------------------
// `validate` warnings.

pub open spec fn kind_warning(kind: Seq<char>, profile: Seq<char>) -> Seq<char> {
    "⚠ Warning: provider.kind ("@ + kind + ") differs from profile_config.profile ("@ + profile
        + ").                      profile_config.profile takes precedence."@
}

pub open spec fn reasoning_levels_warning(slug: Seq<char>) -> Seq<char> {
    "⚠ Warning: reasoning.enabled=true but model '"@ + slug
        + "' has no reasoning_levels.                          Codex will see this model as non-reasoning."@
}

pub open spec fn default_model_warning(default: Seq<char>, resolved: Seq<char>) -> Seq<char> {
    "⚠ Warning: models.default '"@ + default + "' resolves to '"@ + resolved
        + "' which is not in models.catalog.                      Codex may request a model that the shim does not advertise."@
}

pub open spec fn has_reasoning_levels(m: CatalogModelSpec) -> bool {
    m.reasoning_levels matches Some(l) && l@.len() > 0
}

/// One warning per catalog model without reasoning levels, when reasoning is on.
pub open spec fn reasoning_warnings(cat: Seq<CatalogModelSpec>, enabled: bool) -> Seq<Seq<char>>
    decreases cat.len(),
{
    if cat.len() == 0 {
        Seq::empty()
    } else {
        reasoning_warnings(cat.drop_last(), enabled) + if enabled && !has_reasoning_levels(cat.last()) {
            seq![reasoning_levels_warning(cat.last().slug@)]
        } else {
            Seq::empty()
        }
    }
}

/// The warnings `validate` prints for a config that passed validation, in order.
pub open spec fn config_warnings(c: Config) -> Seq<Seq<char>> {
    (match c.provider.profile_config {
        Some(pc) => if c.provider.kind@.len() > 0 && c.provider.kind@ != pc.profile@ {
            seq![kind_warning(c.provider.kind@, pc.profile@)]
        } else {
            Seq::empty()
        },
        None => Seq::empty(),
    }) + reasoning_warnings(c.models.catalog@, c.reasoning.enabled) + if catalog_has_slug(c.models.catalog@, resolved_model(c, c.models.default@)) {
        Seq::empty()
    } else {
        seq![default_model_warning(c.models.default@, resolved_model(c, c.models.default@))]
    }
}

pub open spec fn strings_view(v: Seq<String>) -> Seq<Seq<char>> {
    Seq::new(v.len(), |i: int| v[i]@)
}

pub fn push_string(out: &mut Vec<String>, s: String)
    ensures
        strings_view(final(out)@) == strings_view(old(out)@).push(s@),
{
    let ghost before = strings_view(out@);
    let ghost sv = s@;
    out.push(s);
    assert(strings_view(out@) =~= before.push(sv));
}

/// The warnings of `validate` for a config that passed validation.
pub fn validation_warnings(config: &Config) -> (r: Vec<String>)
    ensures
        strings_view(r@) == config_warnings(*config),
{
    let mut out: Vec<String> = Vec::new();
    match &config.provider.profile_config {
        Some(pc) => {
            if config.provider.kind.as_str().unicode_len() > 0 && !str_eq(config.provider.kind.as_str(), pc.profile.as_str()) {
                let mut w = concat3("⚠ Warning: provider.kind (", config.provider.kind.as_str(), ") differs from profile_config.profile (");
                w.append(pc.profile.as_str());
                w.append(").                      profile_config.profile takes precedence.");
                push_string(&mut out, w);
            }
        }
        None => {}
    }
    let ghost first = strings_view(out@);
    let cat = &config.models.catalog;
    let mut i: usize = 0;
    while i < cat.len()
        invariant
            i <= cat@.len(),
            strings_view(out@) == first + reasoning_warnings(cat@.subrange(0, i as int), config.reasoning.enabled),
        decreases cat@.len() - i,
    {
        let ghost prefix = cat@.subrange(0, i as int + 1);
        assert(prefix.drop_last() =~= cat@.subrange(0, i as int));
        let has_levels = match &cat[i].reasoning_levels {
            Some(l) => l.len() > 0,
            None => false,
        };
        if config.reasoning.enabled && !has_levels {
            let w = concat3("⚠ Warning: reasoning.enabled=true but model '", cat[i].slug.as_str(),
                "' has no reasoning_levels.                          Codex will see this model as non-reasoning.");
            push_string(&mut out, w);
            assert(strings_view(out@) =~= first + reasoning_warnings(prefix, config.reasoning.enabled));
        } else {
            assert(strings_view(out@) =~= first + reasoning_warnings(prefix, config.reasoning.enabled));
        }
        i = i + 1;
    }
    assert(cat@.subrange(0, cat@.len() as int) =~= cat@);
    let resolved = config.resolve_model(config.models.default.as_str());
    let mut found = false;
    let mut j: usize = 0;
    while j < cat.len()
        invariant
            j <= cat@.len(),
            !found ==> forall|k: int| 0 <= k < j ==> (#[trigger] cat@[k]).slug@ != resolved@,
            found ==> catalog_has_slug(cat@, resolved@),
        decreases cat@.len() - j,
    {
        if !found && str_eq(cat[j].slug.as_str(), resolved.as_str()) {
            found = true;
        }
        j = j + 1;
    }
    if !found {
        let mut w = concat3("⚠ Warning: models.default '", config.models.default.as_str(), "' resolves to '");
        w.append(resolved.as_str());
        w.append("' which is not in models.catalog.                      Codex may request a model that the shim does not advertise.");
        push_string(&mut out, w);
    }
    proof {
        let a = strings_view(out@);
        let b = config_warnings(*config);
        assert(a =~= b);
    }
    out
}

/// The warning of `validate --check-upstream` when the API key variable is unset.
pub fn missing_api_key_warning(api_key_env: &str) -> (r: String)
    ensures
        r@ == "⚠ Warning: upstream API key env var '"@ + api_key_env@
            + "' is not set.                          Upstream connectivity check will likely fail."@,
{
    concat3("⚠ Warning: upstream API key env var '", api_key_env,
        "' is not set.                          Upstream connectivity check will likely fail.")
}

// ---------------------------------------------------------------------------
// `probe`.

/// How one probe request went: it failed to send (with the error's text), or
/// it got a reply (with its body, when the body is JSON).
#[derive(Debug)]
pub enum ProbeOutcome {
    Failed(String),
    Replied(Option<JsonValue>),
}

pub enum ProbeOutcomeV {
    Failed(Seq<char>),
    Replied(Option<JsonView>),
}

impl View for ProbeOutcome {
    type V = ProbeOutcomeV;

    open spec fn view(&self) -> ProbeOutcomeV {
        match self {
            ProbeOutcome::Failed(e) => ProbeOutcomeV::Failed(e@),
            ProbeOutcome::Replied(Some(j)) => ProbeOutcomeV::Replied(Some(j@)),
            ProbeOutcome::Replied(None) => ProbeOutcomeV::Replied(None),
        }
    }
}

pub open spec fn replied_json(o: ProbeOutcomeV) -> Option<JsonView> {
    match o {
        ProbeOutcomeV::Replied(Some(j)) => Some(j),
        _ => None,
    }
}

pub open spec fn has_key(j: Option<JsonView>, key: Seq<char>) -> bool {
    j matches Some(v) && v.get(key) is Some
}

pub open spec fn has_reasoning_output(j: Option<JsonView>) -> bool {
    match j {
        Some(v) => match v.get_array("output"@) {
            Some(items) => exists|i: int| 0 <= i < items.len() && (#[trigger] items[i]).get_str("type"@) == Some("reasoning"@),
            None => false,
        },
        None => false,
    }
}

pub open spec fn probe_errors(chat: ProbeOutcomeV, responses: ProbeOutcomeV) -> Seq<JsonView> {
    (match chat {
        ProbeOutcomeV::Failed(e) => seq![JsonView::Str("chat_completions: "@ + e)],
        _ => Seq::empty(),
    }) + match responses {
        ProbeOutcomeV::Failed(e) => seq![JsonView::Str("responses: "@ + e)],
        _ => Seq::empty(),
    }
}

/// The report `probe` prints for the chat completions and Responses probes.
pub open spec fn probe_report_view(base_url: Seq<char>, chat: ProbeOutcomeV, responses: ProbeOutcomeV) -> JsonView {
    let cj = replied_json(chat);
    let rj = replied_json(responses);
    JsonView::Object(seq![
        ("base_url"@, JsonView::Str(base_url)),
        ("responses"@, JsonView::Bool(has_key(rj, "output"@) || has_key(rj, "status"@))),
        ("responses_stateful"@, JsonView::Bool(has_key(rj, "previous_response_id"@) || has_key(rj, "store"@))),
        ("chat_completions"@, JsonView::Bool(chat is Replied)),
        ("streaming"@, JsonView::Str("unknown"@)),
        ("function_tools"@, JsonView::Bool(false)),
        ("parallel_tool_calls"@, JsonView::Str("unknown"@)),
        ("reasoning_shape"@, JsonView::Str(if has_reasoning_output(rj) { "responses_reasoning_item"@ } else { "unknown"@ })),
        ("usage_in_stream_final"@, JsonView::Bool((has_key(cj, "choices"@) && has_key(cj, "usage"@)) || has_key(rj, "usage"@))),
        ("errors"@, JsonView::Array(probe_errors(chat, responses))),
    ])
}

fn json_has_key(j: &Option<JsonValue>, key: &str) -> (r: bool)
    ensures
        r == has_key(match j { Some(v) => Some(v@), None => None }, key@),
{
    match j {
        Some(v) => v.get(key).is_some(),
        None => false,
    }
}

fn json_has_reasoning_output(j: &Option<JsonValue>) -> (r: bool)
    ensures
        r == has_reasoning_output(match j { Some(v) => Some(v@), None => None }),
{
    match j {
        Some(v) => match v.get("output") {
            Some(out) => match out.as_array() {
                Some(items) => {
                    let ghost arr = out@->Array_0;
                    assert(v@.get_array("output"@) == Some(arr));
                    let ghost goal = has_reasoning_output(match j { Some(x) => Some(x@), None => None });
                    assert(goal == exists|k: int| 0 <= k < arr.len() && (#[trigger] arr[k]).get_str("type"@) == Some("reasoning"@));
                    let mut i: usize = 0;
                    while i < items.len()
                        invariant
                            goal == has_reasoning_output(match j { Some(x) => Some(x@), None => None }),
                            goal == exists|k: int| 0 <= k < arr.len() && (#[trigger] arr[k]).get_str("type"@) == Some("reasoning"@),
                            i <= items@.len(),
                            items@.len() == arr.len(),
                            forall|k: int| 0 <= k < items@.len() ==> #[trigger] items@[k]@ == arr[k],
                            forall|k: int| 0 <= k < i ==> (#[trigger] arr[k]).get_str("type"@) != Some("reasoning"@),
                        decreases items@.len() - i,
                    {
                        match items[i].get_str("type") {
                            Some(t) => if str_eq(t.as_str(), "reasoning") {
                                assert(arr[i as int].get_str("type"@) == Some("reasoning"@));
                                return true;
                            },
                            None => {}
                        }
                        assert(items@[i as int]@ == arr[i as int]);
                        i = i + 1;
                    }
                    false
                }
                None => false,
            },
            None => false,
        },
        None => false,
    }
}

fn replied_body(o: &ProbeOutcome) -> (r: &Option<JsonValue>)
    ensures
        match r { Some(v) => Some(v@), None => None } == replied_json(o@),
{
    match o {
        ProbeOutcome::Replied(b) => b,
        ProbeOutcome::Failed(_) => &None,
    }
}

/// The JSON report of the `probe` command.
pub fn probe_report(base_url: &str, chat: &ProbeOutcome, responses: &ProbeOutcome) -> (r: JsonValue)
    ensures
        r@ == probe_report_view(base_url@, chat@, responses@),
{
    let cj = replied_body(chat);
    let rj = replied_body(responses);
    let mut errors: Vec<JsonValue> = Vec::new();
    match chat {
        ProbeOutcome::Failed(e) => push_value(&mut errors, JsonValue::Str(concat2("chat_completions: ", e.as_str()))),
        _ => {}
    }
    match responses {
        ProbeOutcome::Failed(e) => push_value(&mut errors, JsonValue::Str(concat2("responses: ", e.as_str()))),
        _ => {}
    }
    assert(values_view(errors@) =~= probe_errors(chat@, responses@));
    let mut f: Vec<(String, JsonValue)> = Vec::new();
    push_member(&mut f, "base_url", string_value(base_url));
    push_member(&mut f, "responses", JsonValue::Bool(json_has_key(rj, "output") || json_has_key(rj, "status")));
    push_member(&mut f, "responses_stateful",
        JsonValue::Bool(json_has_key(rj, "previous_response_id") || json_has_key(rj, "store")));
    let chat_replied = match chat { ProbeOutcome::Replied(_) => true, _ => false };
    push_member(&mut f, "chat_completions", JsonValue::Bool(chat_replied));
    push_member(&mut f, "streaming", string_value("unknown"));
    push_member(&mut f, "function_tools", JsonValue::Bool(false));
    push_member(&mut f, "parallel_tool_calls", string_value("unknown"));
    let shape = if json_has_reasoning_output(rj) { "responses_reasoning_item" } else { "unknown" };
    push_member(&mut f, "reasoning_shape", string_value(shape));
    push_member(&mut f, "usage_in_stream_final",
        JsonValue::Bool((json_has_key(cj, "choices") && json_has_key(cj, "usage")) || json_has_key(rj, "usage")));
    push_member(&mut f, "errors", array_of(errors));
    let ghost fv = members_view(f@);
    let r = object_of(f);
    proof {
        let want = probe_report_view(base_url@, chat@, responses@)->Object_0;
        assert(fv.len() == want.len());
        assert(fv[0] == want[0]);
        assert(fv[1] == want[1]);
        assert(fv[2] == want[2]);
        assert(fv[3] == want[3]);
        assert(fv[4] == want[4]);
        assert(fv[5] == want[5]);
        assert(fv[6] == want[6]);
        assert(fv[7] == want[7]);
        assert(fv[8] == want[8]);
        assert(fv[9] == want[9]);
        assert(fv =~= want);
    }
    r
}

/// The report of the GUI's probe: as the command's, except that usage in a
/// chat reply counts even without `choices`, and `models` is set when the
/// models endpoint answered.
pub open spec fn gui_probe_report_view(base_url: Seq<char>, chat: ProbeOutcomeV, responses: ProbeOutcomeV, models_ok: bool) -> JsonView {
    let base = probe_report_view(base_url, chat, responses)->Object_0;
    let cj = replied_json(chat);
    let rj = replied_json(responses);
    let fields = base.update(8, ("usage_in_stream_final"@, JsonView::Bool(has_key(cj, "usage"@) || has_key(rj, "usage"@))));
    JsonView::Object(if models_ok { fields.push(("models"@, JsonView::Bool(true))) } else { fields })
}

/// The JSON report of the GUI's probe.
pub fn gui_probe_report(base_url: &str, chat: &ProbeOutcome, responses: &ProbeOutcome, models_ok: bool) -> (r: JsonValue)
    ensures
        r@ == gui_probe_report_view(base_url@, chat@, responses@, models_ok),
{
    let report = probe_report(base_url, chat, responses);
    let mut fields = match report {
        JsonValue::Object(f) => f,
        _ => Vec::new(),
    };
    let ghost before = members_view(fields@);
    assert(before == probe_report_view(base_url@, chat@, responses@)->Object_0);
    let cj = replied_body(chat);
    let rj = replied_body(responses);
    let usage = json_has_key(cj, "usage") || json_has_key(rj, "usage");
    fields.set(8, (owned("usage_in_stream_final"), JsonValue::Bool(usage)));
    assert(members_view(fields@) =~= before.update(8, ("usage_in_stream_final"@, JsonView::Bool(usage))));
    if models_ok {
        push_member(&mut fields, "models", JsonValue::Bool(true));
    }
    let r = object_of(fields);
    assert(r@ =~= gui_probe_report_view(base_url@, chat@, responses@, models_ok));
    r
}

// ---------------------------------------------------------------------------
// `explain-catalog`.

pub open spec fn bool_text(b: bool) -> Seq<char> {
    if b { "true"@ } else { "false"@ }
}

/// The strings among the elements of an array, in order.
pub open spec fn string_elements(items: Seq<JsonView>) -> Seq<Seq<char>>
    decreases items.len(),
{
    if items.len() == 0 {
        Seq::empty()
    } else {
        string_elements(items.drop_last()) + match items.last().as_str() {
            Some(s) => seq![s],
            None => Seq::empty(),
        }
    }
}

pub open spec fn str_or(m: JsonView, key: Seq<char>, default: Seq<char>) -> Seq<char> {
    match m.get_str(key) {
        Some(s) => s,
        None => default,
    }
}

pub open spec fn bool_or_false(m: JsonView, key: Seq<char>) -> bool {
    m.get_bool(key) == Some(true)
}

pub open spec fn context_window_of(m: JsonView) -> i64 {
    match m.get("context_window"@) {
        Some(v) => match v.as_i64() {
            Some(n) => n,
            None => 0,
        },
        None => 0,
    }
}

pub open spec fn modalities_of(m: JsonView) -> Seq<Seq<char>> {
    match m.get_array("input_modalities"@) {
        Some(items) => string_elements(items),
        None => Seq::empty(),
    }
}

/// What `explain-catalog` prints for one catalog model.
pub open spec fn model_lines(m: JsonView) -> Seq<Seq<char>> {
    let shell = str_or(m, "shell_type"@, "unknown"@);
    let parallel = bool_or_false(m, "supports_parallel_tool_calls"@);
    let reasoning = bool_or_false(m, "supports_reasoning_summaries"@);
    let modalities = modalities_of(m);
    let web_search = str_or(m, "web_search_tool_type"@, "text"@);
    let patch = m.get_str("apply_patch_tool_type"@);
    seq![
        "Model: "@ + str_or(m, "slug"@, "?"@),
        "  Shell type:          "@ + shell,
        "  Context window:      "@ + signed_decimal(context_window_of(m) as int) + " tokens"@,
        "  Parallel tool calls: "@ + bool_text(parallel),
        "  Reasoning summaries: "@ + bool_text(reasoning),
        "  Input modalities:    "@ + joined_with(modalities, ", "@),
        "  Web search:          "@ + web_search,
        "  Apply patch:         "@ + match patch { Some(p) => p, None => "<disabled>"@ },
        Seq::empty(),
        "  Codex will:"@,
        if shell == "unified_exec"@ { "    ✓ Use exec_command / write_stdin shell"@ } else { "    ✗ No shell tool"@ },
        if parallel { "    ✓ Make parallel tool calls when beneficial"@ } else { "    ✗ Serial tool calls only"@ },
        if shell != "disabled"@ && patch is Some { "    ✓ Use apply_patch tool for code edits"@ } else { "    ✗ No apply_patch tool"@ },
        if web_search != "text"@ { "    ✓ Web search available"@ }
            else { "    ✗ Web search disabled (Chat API has no server-side web search)"@ },
        if reasoning { "    ✓ Reasoning summaries requested"@ } else { "    ✗ No reasoning summaries"@ },
        if modalities.contains("image"@) { "    ✓ Image inputs accepted"@ } else { "    ✗ Text-only inputs"@ },
        Seq::empty(),
    ]
}

pub open spec fn catalog_lines(models: Seq<JsonView>) -> Seq<Seq<char>>
    decreases models.len(),
{
    if models.len() == 0 {
        Seq::empty()
    } else {
        catalog_lines(models.drop_last()) + model_lines(models.last())
    }
}

/// The parts joined with a separator.
pub fn join_strings(parts: &Vec<String>, sep: &str) -> (r: String)
    ensures
        r@ == joined_with(strings_view(parts@), sep@),
{
    let mut out = String::new();
    let mut i: usize = 0;
    while i < parts.len()
        invariant
            i <= parts@.len(),
            out@ == joined_with(strings_view(parts@).take(i as int), sep@),
        decreases parts@.len() - i,
    {
        let ghost ps = strings_view(parts@);
        assert(ps.take(i as int + 1).drop_last() =~= ps.take(i as int));
        if i > 0 {
            out.append(sep);
        }
        out.append(parts[i].as_str());
        i = i + 1;
    }
    assert(strings_view(parts@).take(parts@.len() as int) =~= strings_view(parts@));
    out
}

fn get_str_or(m: &JsonValue, key: &str, default: &str) -> (r: String)
    ensures
        r@ == str_or(m@, key@, default@),
{
    match m.get_str(key) {
        Some(s) => s.clone(),
        None => owned(default),
    }
}

fn string_elements_exec(items: &Vec<JsonValue>) -> (r: Vec<String>)
    ensures
        strings_view(r@) == string_elements(values_view(items@)),
{
    let mut out: Vec<String> = Vec::new();
    let mut i: usize = 0;
    while i < items.len()
        invariant
            i <= items@.len(),
            strings_view(out@) == string_elements(values_view(items@).take(i as int)),
        decreases items@.len() - i,
    {
        let ghost vs = values_view(items@);
        assert(vs.take(i as int + 1).drop_last() =~= vs.take(i as int));
        assert(vs.take(i as int + 1).last() == items@[i as int]@);
        match items[i].as_str() {
            Some(s) => push_string(&mut out, s.clone()),
            None => {}
        }
        assert(strings_view(out@) =~= string_elements(vs.take(i as int + 1)));
        i = i + 1;
    }
    assert(values_view(items@).take(items@.len() as int) =~= values_view(items@));
    out
}

fn contains_string(v: &Vec<String>, s: &str) -> (r: bool)
    ensures
        r == strings_view(v@).contains(s@),
{
    let mut i: usize = 0;
    while i < v.len()
        invariant
            i <= v@.len(),
            forall|k: int| 0 <= k < i ==> v@[k]@ != s@,
        decreases v@.len() - i,
    {
        if str_eq(v[i].as_str(), s) {
            assert(strings_view(v@)[i as int] == s@);
            return true;
        }
        i = i + 1;
    }
    assert forall|k: int| 0 <= k < strings_view(v@).len() implies strings_view(v@)[k] != s@ by {
        assert(strings_view(v@)[k] == v@[k]@);
    }
    false
}

fn model_explanation(m: &JsonValue, out: &mut Vec<String>)
    ensures
        strings_view(final(out)@) == strings_view(old(out)@) + model_lines(m@),
{
    let ghost start = strings_view(out@);
    let slug = get_str_or(m, "slug", "?");
    let shell = get_str_or(m, "shell_type", "unknown");
    let ctx: i64 = match m.get("context_window") {
        Some(v) => match v.as_i64() {
            Some(n) => n,
            None => 0,
        },
        None => 0,
    };
    let parallel = match m.get_bool("supports_parallel_tool_calls") { Some(b) => b, None => false };
    let reasoning = match m.get_bool("supports_reasoning_summaries") { Some(b) => b, None => false };
    let modalities: Vec<String> = match m.get("input_modalities") {
        Some(v) => match v.as_array() {
            Some(items) => {
                let r = string_elements_exec(items);
                assert(values_view(items@) =~= v@->Array_0);
                r
            }
            None => Vec::new(),
        },
        None => Vec::new(),
    };
    assert(strings_view(modalities@) == modalities_of(m@));
    let web_search = get_str_or(m, "web_search_tool_type", "text");
    let patch: Option<String> = match m.get_str("apply_patch_tool_type") {
        Some(p) => Some(p.clone()),
        None => None,
    };
    push_string(out, concat2("Model: ", slug.as_str()));
    push_string(out, concat2("  Shell type:          ", shell.as_str()));
    let mut line = owned("  Context window:      ");
    push_signed_decimal(&mut line, ctx);
    line.append(" tokens");
    push_string(out, line);
    push_string(out, concat2("  Parallel tool calls: ", if parallel { "true" } else { "false" }));
    push_string(out, concat2("  Reasoning summaries: ", if reasoning { "true" } else { "false" }));
    push_string(out, concat2("  Input modalities:    ", join_strings(&modalities, ", ").as_str()));
    push_string(out, concat2("  Web search:          ", web_search.as_str()));
    push_string(out, concat2("  Apply patch:         ", match &patch { Some(p) => p.as_str(), None => "<disabled>" }));
    push_string(out, String::new());
    push_string(out, owned("  Codex will:"));
    push_string(out, owned(if str_eq(shell.as_str(), "unified_exec") { "    ✓ Use exec_command / write_stdin shell" } else { "    ✗ No shell tool" }));
    push_string(out, owned(if parallel { "    ✓ Make parallel tool calls when beneficial" } else { "    ✗ Serial tool calls only" }));
    push_string(out, owned(if !str_eq(shell.as_str(), "disabled") && patch.is_some() { "    ✓ Use apply_patch tool for code edits" } else { "    ✗ No apply_patch tool" }));
    push_string(out, owned(if !str_eq(web_search.as_str(), "text") { "    ✓ Web search available" }
        else { "    ✗ Web search disabled (Chat API has no server-side web search)" }));
    push_string(out, owned(if reasoning { "    ✓ Reasoning summaries requested" } else { "    ✗ No reasoning summaries" }));
    push_string(out, owned(if contains_string(&modalities, "image") { "    ✓ Image inputs accepted" } else { "    ✗ Text-only inputs" }));
    push_string(out, String::new());
    proof {
        let got = strings_view(out@);
        let want = start + model_lines(m@);
        assert(got.len() == want.len());
        assert forall|k: int| 0 <= k < got.len() implies got[k] == want[k] by {
            if k >= start.len() {
                assert(Seq::<char>::empty() =~= ""@) by { reveal_strlit(""); }
            }
        }
        assert(got =~= want);
    }
}

/// What `explain-catalog` prints for a model catalog, or `None` when the
/// catalog has no `models` array.
pub fn explain_catalog(catalog: &JsonValue) -> (r: Option<Vec<String>>)
    ensures
        match catalog@.get_array("models"@) {
            Some(models) => r is Some && strings_view(r->0@) == catalog_lines(models),
            None => r is None,
        },
{
    let models = match catalog.get("models") {
        Some(v) => match v.as_array() {
            Some(items) => items,
            None => return None,
        },
        None => return None,
    };
    let ghost mv = catalog@.get_array("models"@).unwrap();
    let mut out: Vec<String> = Vec::new();
    let mut i: usize = 0;
    while i < models.len()
        invariant
            i <= models@.len(),
            mv.len() == models@.len(),
            forall|k: int| 0 <= k < models@.len() ==> #[trigger] models@[k]@ == mv[k],
            strings_view(out@) == catalog_lines(mv.take(i as int)),
        decreases models@.len() - i,
    {
        assert(mv.take(i as int + 1).drop_last() =~= mv.take(i as int));
        assert(mv.take(i as int + 1).last() == models@[i as int]@);
        model_explanation(&models[i], &mut out);
        i = i + 1;
    }
    assert(mv.take(mv.len() as int) =~= mv);
    Some(out)
}

} // verus!
