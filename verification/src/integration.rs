//! Codex integration: the options and reports of installing the shim as a
//! Codex model provider, and the decisions those installs make.
use vstd::prelude::*;
use crate::text::{str_eq, owned, concat2, concat3, push_decimal, decimal};
use crate::config::{Config, CatalogModelSpec, joined, join_path};
use crate::profile::ProviderCapabilities;

verus! {

/// What the caller of an integration preview or apply asks for.
#[derive(Debug, Default)]
pub struct CodexIntegrationOptions {
    pub provider_id: String,
    pub model: Option<String>,
    pub profile: Option<String>,
    pub codex_home: Option<String>,
    pub project_dir: Option<String>,
    pub trust_project: bool,
    pub env_key: Option<String>,
    pub web_search: Option<String>,
    pub base_url: Option<String>,
    pub base_toml_override: Option<String>,
}

/// What an integration would write, before anything is written.
#[derive(Debug, PartialEq, Eq)]
pub struct CodexIntegrationPreview {
    pub mode: String,
    pub provider_id: String,
    pub target_model: String,
    pub target_path: String,
    pub catalog_path: String,
    pub base_url: String,
    pub original_toml: String,
    pub merged_toml: String,
    pub catalog_json: String,
    pub trust_target_path: Option<String>,
}

/// Where an applied integration wrote its files.
#[derive(Debug, PartialEq, Eq)]
pub struct CodexIntegrationApplyResult {
    pub config_path: Option<String>,
    pub target_path: String,
    pub catalog_path: String,
    pub trust_target_path: Option<String>,
}

/// The verdict of one desktop check.
#[derive(Debug, Clone, Copy, PartialEq, Eq, Structural)]
pub enum DesktopCheckStatus {
    Supported,
    Gated,
    Unsupported,
}

/// One check of a desktop project install.
#[derive(Debug)]
pub struct DesktopCheck {
    pub status: DesktopCheckStatus,
    pub subject: String,
    pub detail: String,
}

/// The checks of a desktop project install, in the order they ran.
#[derive(Debug)]
pub struct DesktopDoctorReport {
    pub checks: Vec<DesktopCheck>,
}

/// The fields of a shim config that the GUI summarizes.
#[derive(Debug, PartialEq, Eq)]
pub struct ShimConfigSummary {
    pub listen: String,
    pub provider_kind: String,
    pub upstream_base_url: String,
    pub model: String,
    pub state_backend: String,
}

impl DesktopCheckStatus {
    /// The lowercase label printed for the status.
    pub fn label(self) -> (r: &'static str)
        ensures
            r@ == match self {
                DesktopCheckStatus::Supported => "supported"@,
                DesktopCheckStatus::Gated => "gated"@,
                DesktopCheckStatus::Unsupported => "unsupported"@,
            },
    {
        match self {
            DesktopCheckStatus::Supported => "supported",
            DesktopCheckStatus::Gated => "gated",
            DesktopCheckStatus::Unsupported => "unsupported",
        }
    }
}

impl DesktopDoctorReport {
    /// Whether some check is unsupported.
    pub fn has_unsupported(&self) -> (r: bool)
        ensures
            r == exists|i: int| 0 <= i < self.checks@.len()
                && (#[trigger] self.checks@[i]).status == DesktopCheckStatus::Unsupported,
    {
        let mut i: usize = 0;
        while i < self.checks.len()
            invariant
                i <= self.checks@.len(),
                forall|j: int| 0 <= j < i ==> (#[trigger] self.checks@[j]).status != DesktopCheckStatus::Unsupported,
            decreases self.checks@.len() - i,
        {
            if self.checks[i].status == DesktopCheckStatus::Unsupported {
                return true;
            }
            i = i + 1;
        }
        false
    }

    /// The report as printed lines: `[status] subject: detail`, one per check.
    pub fn lines(&self) -> (r: Vec<String>)
        ensures
            r@.len() == self.checks@.len(),
            forall|i: int| 0 <= i < r@.len() ==> (#[trigger] r@[i])@ ==
                seq!['['] + status_label(self.checks@[i].status) + "] "@ + self.checks@[i].subject@ + ": "@ + self.checks@[i].detail@,
    {
        let mut out: Vec<String> = Vec::new();
        let mut i: usize = 0;
        while i < self.checks.len()
            invariant
                i <= self.checks@.len(),
                out@.len() == i,
                forall|k: int| 0 <= k < i ==> (#[trigger] out@[k])@ ==
                    seq!['['] + status_label(self.checks@[k].status) + "] "@ + self.checks@[k].subject@ + ": "@ + self.checks@[k].detail@,
            decreases self.checks@.len() - i,
        {
            let check = &self.checks[i];
            let mut line = owned("[");
            line.append(check.status.label());
            line.append("] ");
            line.append(check.subject.as_str());
            line.append(": ");
            line.append(check.detail.as_str());
            proof { reveal_strlit("["); }
            out.push(line);
            i = i + 1;
        }
        out
    }
}

/// The label of a status.
pub open spec fn status_label(s: DesktopCheckStatus) -> Seq<char> {
    match s {
        DesktopCheckStatus::Supported => "supported"@,
        DesktopCheckStatus::Gated => "gated"@,
        DesktopCheckStatus::Unsupported => "unsupported"@,
    }
}

/// The provider ID the shim installs itself under.
pub fn default_provider_id() -> (r: String)
    ensures
        r@ == "codex_shim"@,
{
    owned("codex_shim")
}

/// The fields of a config that the GUI shows.
pub fn config_summary(config: &Config) -> (r: ShimConfigSummary)
    ensures
        r.listen@ == config.server.listen@,
        r.provider_kind@ == config.provider.kind@,
        r.upstream_base_url@ == config.upstream.base_url@,
        r.model@ == config.models.default@,
        r.state_backend@ == config.state.backend@,
{
    ShimConfigSummary {
        listen: config.server.listen.clone(),
        provider_kind: config.provider.kind.clone(),
        upstream_base_url: config.upstream.base_url.clone(),
        model: config.models.default.clone(),
        state_backend: config.state.backend.clone(),
    }
}

/// Why an integration request is refused.
#[derive(Debug)]
pub enum IntegrationError {
    /// The model is not in the shim catalog; the slugs that are, in order.
    ModelNotInCatalog(String, Vec<String>),
    /// A cached or live web search mode without hosted web search support.
    WebSearchUnsupported(String),
    /// A web search mode other than disabled, cached or live.
    InvalidWebSearchMode(String),
    /// A blank provider ID.
    EmptyProviderId,
    /// A provider ID that Codex reserves.
    ReservedProviderId(String),
    /// A project install under a provider ID other than the default.
    ProjectProviderId,
    /// The provider table already holds an `auth` block.
    AuthBlockPresent(String),
    /// A key that must hold a TOML table holds something else.
    NotATable(String),
    /// A config file that is not valid TOML.
    InvalidToml,
    /// CODEX_HOME is needed and could not be determined.
    CodexHomeUnresolved,
    /// Trusting a project was asked for without a project.
    TrustWithoutProject,
    /// A catalog path was given for a project install, whose catalog path is fixed.
    CatalogPathWithProject,
}

/// Whether hosted web search can be offered: the profile supports it and every
/// catalog model sets `supports_search_tool = true`.
pub open spec fn catalog_supports_search(caps: ProviderCapabilities, catalog: Seq<CatalogModelSpec>) -> bool {
    &&& caps.supports_hosted_web_search
    &&& catalog.len() > 0
    &&& forall|i: int| 0 <= i < catalog.len() ==> (#[trigger] catalog[i]).supports_search_tool == Some(true)
}

/// Whether hosted web search can be offered for this catalog.
pub fn catalog_supports_web_search(caps: &ProviderCapabilities, catalog: &Vec<CatalogModelSpec>) -> (r: bool)
    ensures
        r == catalog_supports_search(*caps, catalog@),
{
    if !caps.supports_hosted_web_search || catalog.len() == 0 {
        return false;
    }
    let mut i: usize = 0;
    while i < catalog.len()
        invariant
            i <= catalog@.len(),
            forall|j: int| 0 <= j < i ==> (#[trigger] catalog@[j]).supports_search_tool == Some(true),
        decreases catalog@.len() - i,
    {
        match catalog[i].supports_search_tool {
            Some(true) => {},
            _ => return false,
        }
        i = i + 1;
    }
    true
}

/// Whether `s` is one of the three web search modes.
pub open spec fn is_search_mode(s: Seq<char>) -> bool {
    s == "disabled"@ || s == "cached"@ || s == "live"@
}

pub fn is_web_search_mode(s: &str) -> (r: bool)
    ensures
        r == is_search_mode(s@),
{
    str_eq(s, "disabled") || str_eq(s, "cached") || str_eq(s, "live")
}

/// The `web_search` value an install writes: the requested mode when it is
/// valid and supported, nothing when none was requested and search is
/// supported (the existing setting stays), `disabled` otherwise.
pub fn resolve_install_web_search_mode(
    requested: Option<&str>,
    caps: &ProviderCapabilities,
    catalog: &Vec<CatalogModelSpec>,
) -> (r: Result<Option<String>, IntegrationError>)
    ensures
        match requested {
            Some(mode) => if !is_search_mode(mode@) {
                r matches Err(IntegrationError::InvalidWebSearchMode(m)) && m@ == mode@
            } else if mode@ != "disabled"@ && !catalog_supports_search(*caps, catalog@) {
                r matches Err(IntegrationError::WebSearchUnsupported(m)) && m@ == mode@
            } else {
                r matches Ok(Some(m)) && m@ == mode@
            },
            None => if catalog_supports_search(*caps, catalog@) {
                r matches Ok(None)
            } else {
                r matches Ok(Some(m)) && m@ == "disabled"@
            },
        },
{
    match requested {
        Some(mode) => {
            if is_web_search_mode(mode) {
                if !str_eq(mode, "disabled") && !catalog_supports_web_search(caps, catalog) {
                    return Err(IntegrationError::WebSearchUnsupported(owned(mode)));
                }
                Ok(Some(owned(mode)))
            } else {
                Err(IntegrationError::InvalidWebSearchMode(owned(mode)))
            }
        }
        None => {
            if catalog_supports_web_search(caps, catalog) {
                Ok(None)
            } else {
                Ok(Some(owned("disabled")))
            }
        }
    }
}

/// `<project>/.codex/config.toml`.
pub fn project_config_path(project_dir: &str) -> (r: String)
    ensures
        r@ == joined(joined(project_dir@, ".codex"@), "config.toml"@),
{
    let dir = join_path(project_dir, ".codex");
    join_path(dir.as_str(), "config.toml")
}

/// `<project>/.codex/model-catalog-shim.json`, for an absolute project directory.
pub fn project_catalog_path(project_dir: &str) -> (r: String)
    ensures
        r@ == joined(joined(project_dir@, ".codex"@), "model-catalog-shim.json"@),
{
    let dir = join_path(project_dir, ".codex");
    join_path(dir.as_str(), "model-catalog-shim.json")
}

/// `<home>/.codex`, when a home directory is known.
pub fn default_codex_home_dir_for_home(home: Option<&str>) -> (r: Option<String>)
    ensures
        match home {
            Some(h) => r is Some && r->0@ == joined(h@, ".codex"@),
            None => r is None,
        },
{
    match home {
        Some(h) => Some(join_path(h, ".codex")),
        None => None,
    }
}

/// The Codex home before it is made absolute: the one given, else the
/// `CODEX_HOME` variable's value, else `<home>/.codex`; a leading `~` of the
/// first two expands against `home`.
pub fn codex_home_candidate(explicit: Option<&str>, env_codex_home: Option<&str>, home: Option<&str>) -> (r: Option<String>)
    ensures
        match explicit {
            Some(p) => r is Some && r->0@ == crate::config::tilde_expanded(p@, crate::config::opt_view(home)),
            None => match env_codex_home {
                Some(p) => r is Some && r->0@ == crate::config::tilde_expanded(p@, crate::config::opt_view(home)),
                None => match home {
                    Some(h) => r is Some && r->0@ == joined(h@, ".codex"@),
                    None => r is None,
                },
            },
        },
{
    match explicit {
        Some(p) => Some(crate::config::expand_tilde_with_home(p, home)),
        None => match env_codex_home {
            Some(p) => Some(crate::config::expand_tilde_with_home(p, home)),
            None => default_codex_home_dir_for_home(home),
        },
    }
}

/// The path of backup number `index` of a config file: `<path>.bak.<index>`.
pub fn backup_path(path: &str, index: u8) -> (r: String)
    ensures
        r@ == path@ + ".bak."@ + decimal(index as nat),
{
    let mut s = concat2(path, ".bak.");
    push_decimal(&mut s, index as u64);
    s
}

/// One file operation of a backup rotation.
#[derive(Debug, PartialEq, Eq, Structural, Clone, Copy)]
pub enum BackupStep {
    /// Delete backup number `n`.
    Remove(u8),
    /// Move backup number `from` to number `to`.
    Rename(u8, u8),
    /// Copy the config file to backup number 0.
    CopyConfig,
}

/// The rotation before a config file is replaced, given which of its backups
/// 0 to 3 exist: the oldest (3) is deleted, each other one moves up a number,
/// oldest first, and the file itself becomes backup 0.
pub open spec fn rotation_plan(exists: Seq<bool>) -> Seq<BackupStep> {
    let s3: Seq<BackupStep> = if exists[3] { seq![BackupStep::Remove(3)] } else { Seq::empty() };
    let s2: Seq<BackupStep> = if exists[2] { seq![BackupStep::Rename(2, 3)] } else { Seq::empty() };
    let s1: Seq<BackupStep> = if exists[1] { seq![BackupStep::Rename(1, 2)] } else { Seq::empty() };
    let s0: Seq<BackupStep> = if exists[0] { seq![BackupStep::Rename(0, 1)] } else { Seq::empty() };
    s3 + s2 + s1 + s0 + seq![BackupStep::CopyConfig]
}

/// The file operations that rotate the backups of a config file before it
/// is replaced, given which of backups 0 to 3 exist.
pub fn backup_rotation(exists: [bool; 4]) -> (r: Vec<BackupStep>)
    ensures
        r@ == rotation_plan(exists@),
{
    let mut r: Vec<BackupStep> = Vec::new();
    if exists[3] {
        r.push(BackupStep::Remove(3));
    }
    if exists[2] {
        r.push(BackupStep::Rename(2, 3));
    }
    if exists[1] {
        r.push(BackupStep::Rename(1, 2));
    }
    if exists[0] {
        r.push(BackupStep::Rename(0, 1));
    }
    r.push(BackupStep::CopyConfig);
    assert(r@ =~= rotation_plan(exists@));
    r
}

/// What backups 0 to 3 hold after one operation, `current` being the config.
pub open spec fn apply_backup_step<T>(slots: Seq<Option<T>>, current: T, step: BackupStep) -> Seq<Option<T>> {
    match step {
        BackupStep::Remove(n) => slots.update(n as int, None),
        BackupStep::Rename(from, to) => slots.update(to as int, slots[from as int]).update(from as int, None),
        BackupStep::CopyConfig => slots.update(0, Some(current)),
    }
}

/// What backups 0 to 3 hold after the operations, in order.
pub open spec fn apply_backup_steps<T>(slots: Seq<Option<T>>, current: T, steps: Seq<BackupStep>) -> Seq<Option<T>>
    decreases steps.len(),
{
    if steps.len() == 0 {
        slots
    } else {
        apply_backup_steps(apply_backup_step(slots, current, steps[0]), current, steps.skip(1))
    }
}

/// Which of backups 0 to 3 exist.
pub open spec fn backups_present<T>(slots: Seq<Option<T>>) -> Seq<bool> {
    Seq::new(4, |i: int| slots[i] is Some)
}

proof fn lemma_steps_append<T>(slots: Seq<Option<T>>, current: T, a: Seq<BackupStep>, b: Seq<BackupStep>)
    ensures
        apply_backup_steps(slots, current, a + b) == apply_backup_steps(apply_backup_steps(slots, current, a), current, b),
    decreases a.len(),
{
    if a.len() > 0 {
        assert((a + b).skip(1) =~= a.skip(1) + b);
        assert((a + b)[0] == a[0]);
        lemma_steps_append(apply_backup_step(slots, current, a[0]), current, a.skip(1), b);
    } else {
        assert(a + b =~= b);
    }
}

proof fn lemma_one_step<T>(slots: Seq<Option<T>>, current: T, step: BackupStep)
    ensures
        apply_backup_steps(slots, current, seq![step]) == apply_backup_step(slots, current, step),
{
    reveal_with_fuel(apply_backup_steps, 2);
    assert(seq![step].skip(1) =~= Seq::<BackupStep>::empty());
}

/// A config file keeps at most four rolling backups, newest first: after the
/// rotation, backup 0 is the file as it was and backups 1 to 3 are the
/// former backups 0 to 2; the former backup 3 is gone.
pub proof fn law_backups_roll<T>(slots: Seq<Option<T>>, current: T)
    requires
        slots.len() == 4,
    ensures
        apply_backup_steps(slots, current, rotation_plan(backups_present(slots)))
            == seq![Some(current), slots[0], slots[1], slots[2]],
{
    let e = backups_present(slots);
    let s3: Seq<BackupStep> = if e[3] { seq![BackupStep::Remove(3)] } else { Seq::empty() };
    let s2: Seq<BackupStep> = if e[2] { seq![BackupStep::Rename(2, 3)] } else { Seq::empty() };
    let s1: Seq<BackupStep> = if e[1] { seq![BackupStep::Rename(1, 2)] } else { Seq::empty() };
    let s0: Seq<BackupStep> = if e[0] { seq![BackupStep::Rename(0, 1)] } else { Seq::empty() };
    let last: Seq<BackupStep> = seq![BackupStep::CopyConfig];
    lemma_steps_append(slots, current, s3 + s2 + s1 + s0, last);
    lemma_steps_append(slots, current, s3 + s2 + s1, s0);
    lemma_steps_append(slots, current, s3 + s2, s1);
    lemma_steps_append(slots, current, s3, s2);
    let a3 = apply_backup_steps(slots, current, s3);
    let a2 = apply_backup_steps(a3, current, s2);
    let a1 = apply_backup_steps(a2, current, s1);
    let a0 = apply_backup_steps(a1, current, s0);
    if e[3] { lemma_one_step(slots, current, BackupStep::Remove(3)); }
    assert(a3 =~= slots.update(3, None));
    if e[2] { lemma_one_step(a3, current, BackupStep::Rename(2, 3)); }
    assert(a2 =~= seq![slots[0], slots[1], None, slots[2]]);
    if e[1] { lemma_one_step(a2, current, BackupStep::Rename(1, 2)); }
    assert(a1 =~= seq![slots[0], None, slots[1], slots[2]]);
    if e[0] { lemma_one_step(a1, current, BackupStep::Rename(0, 1)); }
    assert(a0 =~= seq![None, slots[0], slots[1], slots[2]]);
    lemma_one_step(a0, current, BackupStep::CopyConfig);
    assert(apply_backup_steps(a0, current, last) =~= seq![Some(current), slots[0], slots[1], slots[2]]);
}

/// Rendered TOML ends with a newline.
pub fn normalize_toml(rendered: String) -> (r: String)
    ensures
        r@ == if rendered@.len() > 0 && rendered@.last() == '\n' { rendered@ } else { rendered@.push('\n') },
{
    let cs = crate::text::chars_of(rendered.as_str());
    if cs.len() > 0 && cs[cs.len() - 1] == '\n' {
        rendered
    } else {
        let mut r = rendered;
        crate::text::push_char(&mut r, '\n');
        r
    }
}

/// The base URL Codex is pointed at: the one given, or `http://<listen><base_path>`.
pub fn install_base_url(config: &Config, base_url: Option<&str>) -> (r: String)
    ensures
        r@ == match base_url {
            Some(b) => b@,
            None => "http://"@ + config.server.listen@ + config.server.base_path@,
        },
{
    match base_url {
        Some(b) => owned(b),
        None => {
            let mut s = concat2("http://", config.server.listen.as_str());
            s.append(config.server.base_path.as_str());
            s
        }
    }
}

/// The provider ID of an install: the given one, or the default when blank.
pub fn effective_provider_id(provider_id: &str) -> (r: String)
    ensures
        r@ == if crate::text::all_white(provider_id@) { "codex_shim"@ } else { provider_id@ },
{
    if crate::text::is_blank(provider_id) {
        default_provider_id()
    } else {
        owned(provider_id)
    }
}

/// Where and how an install writes, once its options are resolved.
#[derive(Debug)]
pub struct ResolvedIntegration {
    pub mode: String,
    pub provider_id: String,
    pub target_model: String,
    pub target_path: String,
    pub catalog_path: String,
    pub base_url: String,
    pub env_key: Option<String>,
    pub effective_web_search: Option<String>,
    pub trust_target_path: Option<String>,
}

pub open spec fn slug_views(cat: Seq<CatalogModelSpec>) -> Seq<Seq<char>> {
    Seq::new(cat.len(), |i: int| cat[i].slug@)
}

pub open spec fn opt_view(o: Option<String>) -> Option<Seq<char>> {
    match o {
        Some(s) => Some(s@),
        None => None,
    }
}

/// The model an install activates: the requested one, or the default.
pub open spec fn install_model(config: Config, options: CodexIntegrationOptions) -> Seq<char> {
    match options.model {
        Some(m) => m@,
        None => config.models.default@,
    }
}

/// The base URL an install points Codex at.
pub open spec fn install_base(config: Config, options: CodexIntegrationOptions) -> Seq<char> {
    match options.base_url {
        Some(b) => b@,
        None => "http://"@ + config.server.listen@ + config.server.base_path@,
    }
}

/// Whether a resolved install has the given fields.
pub open spec fn resolved_as(
    r: ResolvedIntegration,
    mode: Seq<char>,
    config: Config,
    options: CodexIntegrationOptions,
    web_search: Option<Seq<char>>,
    target_path: Seq<char>,
    catalog_path: Seq<char>,
    trust_target_path: Option<Seq<char>>,
) -> bool {
    &&& r.mode@ == mode
    &&& r.provider_id@ == (if crate::text::all_white(options.provider_id@) { "codex_shim"@ } else { options.provider_id@ })
    &&& r.target_model@ == install_model(config, options)
    &&& r.target_path@ == target_path
    &&& r.catalog_path@ == catalog_path
    &&& r.base_url@ == install_base(config, options)
    &&& opt_view(r.env_key) == opt_view(options.env_key)
    &&& opt_view(r.effective_web_search) == web_search
    &&& opt_view(r.trust_target_path) == trust_target_path
}

fn clone_opt_string(o: &Option<String>) -> (r: Option<String>)
    ensures
        opt_view(r) == opt_view(*o),
{
    match o {
        Some(s) => Some(s.clone()),
        None => None,
    }
}

fn catalog_slugs(cat: &Vec<CatalogModelSpec>) -> (r: Vec<String>)
    ensures
        crate::setup::strings_view(r@) == slug_views(cat@),
{
    let mut out: Vec<String> = Vec::new();
    let mut i: usize = 0;
    while i < cat.len()
        invariant
            i <= cat@.len(),
            crate::setup::strings_view(out@) == slug_views(cat@).take(i as int),
        decreases cat@.len() - i,
    {
        crate::setup::push_string(&mut out, cat[i].slug.clone());
        i = i + 1;
        assert(crate::setup::strings_view(out@) =~= slug_views(cat@).take(i as int));
    }
    assert(slug_views(cat@).take(cat@.len() as int) =~= slug_views(cat@));
    out
}

fn has_slug(cat: &Vec<CatalogModelSpec>, slug: &str) -> (r: bool)
    ensures
        r == crate::config::catalog_has_slug(cat@, slug@),
{
    let mut i: usize = 0;
    while i < cat.len()
        invariant
            i <= cat@.len(),
            forall|j: int| 0 <= j < i ==> (#[trigger] cat@[j]).slug@ != slug@,
        decreases cat@.len() - i,
    {
        if str_eq(cat[i].slug.as_str(), slug) {
            return true;
        }
        i = i + 1;
    }
    false
}

/// Resolves an install: the provider ID, the model (which must be in the
/// catalog), the web search mode, the base URL, and where the Codex config
/// and catalog go: under the project for a project install (which must use
/// the default provider ID), under CODEX_HOME otherwise. `project_dir` is the
/// resolved project directory of a project install, `codex_home` the
/// resolved CODEX_HOME when it could be determined, and `caps` the
/// capabilities of the profile in force.
pub fn resolve_target(
    config: &Config,
    options: &CodexIntegrationOptions,
    caps: &ProviderCapabilities,
    project_dir: Option<&str>,
    codex_home: Option<&str>,
) -> (r: Result<ResolvedIntegration, IntegrationError>)
    ensures
        ({
            let model = install_model(*config, *options);
            let pid = if crate::text::all_white(options.provider_id@) { "codex_shim"@ } else { options.provider_id@ };
            let cat = config.models.catalog@;
            let supported = catalog_supports_search(*caps, cat);
            if !crate::config::catalog_has_slug(cat, model) {
                r matches Err(IntegrationError::ModelNotInCatalog(m, slugs))
                    && m@ == model && crate::setup::strings_view(slugs@) == slug_views(cat)
            } else if options.web_search matches Some(mode) && !is_search_mode(mode@) {
                r matches Err(IntegrationError::InvalidWebSearchMode(m)) && Some(m@) == opt_view(options.web_search)
            } else if options.web_search matches Some(mode) && mode@ != "disabled"@ && !supported {
                r matches Err(IntegrationError::WebSearchUnsupported(m)) && Some(m@) == opt_view(options.web_search)
            } else {
                let ws = match options.web_search {
                    Some(m) => Some(m@),
                    None => if supported { None } else { Some("disabled"@) },
                };
                match project_dir {
                    Some(d) => if pid != "codex_shim"@ {
                        r matches Err(IntegrationError::ProjectProviderId)
                    } else if options.trust_project && codex_home is None {
                        r matches Err(IntegrationError::CodexHomeUnresolved)
                    } else {
                        r matches Ok(t) && resolved_as(t, "project"@, *config, *options, ws,
                            joined(joined(d@, ".codex"@), "config.toml"@),
                            joined(joined(d@, ".codex"@), "model-catalog-shim.json"@),
                            if options.trust_project { Some(joined(codex_home->0@, "config.toml"@)) } else { None })
                    },
                    None => match codex_home {
                        None => r matches Err(IntegrationError::CodexHomeUnresolved),
                        Some(h) => r matches Ok(t) && resolved_as(t, "global"@, *config, *options, ws,
                            joined(h@, "config.toml"@), joined(h@, "model-catalog-shim.json"@), None),
                    },
                }
            }
        }),
{
    let provider_id = effective_provider_id(options.provider_id.as_str());
    let target_model = match &options.model {
        Some(m) => m.clone(),
        None => config.models.default.clone(),
    };
    if !has_slug(&config.models.catalog, target_model.as_str()) {
        return Err(IntegrationError::ModelNotInCatalog(target_model, catalog_slugs(&config.models.catalog)));
    }
    let requested: Option<&str> = match &options.web_search {
        Some(m) => Some(m.as_str()),
        None => None,
    };
    let effective_web_search = match resolve_install_web_search_mode(requested, caps, &config.models.catalog) {
        Ok(ws) => ws,
        Err(e) => return Err(e),
    };
    let base: Option<&str> = match &options.base_url {
        Some(b) => Some(b.as_str()),
        None => None,
    };
    let base_url = install_base_url(config, base);
    match project_dir {
        Some(d) => {
            if !str_eq(provider_id.as_str(), "codex_shim") {
                return Err(IntegrationError::ProjectProviderId);
            }
            let trust_target_path = if options.trust_project {
                match codex_home {
                    Some(h) => Some(join_path(h, "config.toml")),
                    None => return Err(IntegrationError::CodexHomeUnresolved),
                }
            } else {
                None
            };
            Ok(ResolvedIntegration {
                mode: owned("project"),
                provider_id,
                target_model,
                target_path: project_config_path(d),
                catalog_path: project_catalog_path(d),
                base_url,
                env_key: clone_opt_string(&options.env_key),
                effective_web_search,
                trust_target_path,
            })
        }
        None => {
            let h = match codex_home {
                Some(h) => h,
                None => return Err(IntegrationError::CodexHomeUnresolved),
            };
            Ok(ResolvedIntegration {
                mode: owned("global"),
                provider_id,
                target_model,
                target_path: join_path(h, "config.toml"),
                catalog_path: join_path(h, "model-catalog-shim.json"),
                base_url,
                env_key: clone_opt_string(&options.env_key),
                effective_web_search,
                trust_target_path: None,
            })
        }
    }
}

/// Where a global install writes the model catalog: the given path (with
/// `~` expanded against `home`) under CODEX_HOME unless it is absolute, or
/// `model-catalog-shim.json` in CODEX_HOME.
pub fn catalog_path_in_home(codex_home: &str, catalog_path: Option<&str>, home: Option<&str>) -> (r: String)
    ensures
        r@ == match catalog_path {
            Some(p) => joined(codex_home@, crate::config::tilde_expanded(p@, crate::config::opt_view(home))),
            None => joined(codex_home@, "model-catalog-shim.json"@),
        },
{
    match catalog_path {
        Some(p) => {
            let expanded = crate::config::expand_tilde_with_home(p, home);
            join_path(codex_home, expanded.as_str())
        }
        None => join_path(codex_home, "model-catalog-shim.json"),
    }
}

/// Whether a config file must be (re)written: it does not exist, or its
/// text, ending with a newline, differs from the rendered one.
pub fn config_write_needed(existing: Option<&str>, rendered: &str) -> (r: bool)
    ensures
        r == match existing {
            Some(e) => (if e@.len() > 0 && e@.last() == '\n' { e@ } else { e@.push('\n') }) != rendered@,
            None => true,
        },
{
    match existing {
        Some(e) => {
            let normalized = normalize_toml(owned(e));
            !str_eq(normalized.as_str(), rendered)
        }
        None => true,
    }
}

/// The message shown for an integration error.
pub open spec fn message_text(e: IntegrationError) -> Seq<char> {
    match e {
                IntegrationError::ModelNotInCatalog(m, slugs) => "model '"@ + m@
                    + "' is not present in shim models.catalog. Available models: "@
                    + crate::relay::joined_with(crate::setup::strings_view(slugs@), ", "@),
                IntegrationError::WebSearchUnsupported(m) => "web_search mode '"@ + m@
                    + "' requires a Responses-capable profile with hosted web search enabled and every advertised catalog model to set supports_search_tool = true"@,
                IntegrationError::InvalidWebSearchMode(m) => "invalid web_search mode '"@ + m@
                    + "'; expected one of: disabled, cached, live"@,
                IntegrationError::EmptyProviderId => "provider_id must not be empty"@,
                IntegrationError::ReservedProviderId(p) => "provider_id '"@ + p@
                    + "' is reserved by Codex; choose a different custom provider ID"@,
                IntegrationError::ProjectProviderId => "desktop project installs require provider_id 'codex_shim' to keep resume/history stable"@,
                IntegrationError::AuthBlockPresent(p) => p@
                    + " already contains an auth block. Remove it or use a different provider ID before installing env_key-based shim auth."@,
                IntegrationError::NotATable(p) => p@ + " must be a TOML table"@,
                IntegrationError::InvalidToml => "the config file is not valid TOML"@,
                IntegrationError::CodexHomeUnresolved => "could not determine CODEX_HOME; set codex_home or CODEX_HOME"@,
                IntegrationError::TrustWithoutProject => "--trust-project requires --project-dir"@,
                IntegrationError::CatalogPathWithProject => "--catalog-path is not supported with --project-dir; desktop installs use a stable in-project catalog path"@,
            }
}

/// The message the command line shows for an integration error: it names
/// its own options where the message names a setting.
pub open spec fn cli_message_text(e: IntegrationError) -> Seq<char> {
    match e {
        IntegrationError::AuthBlockPresent(p) => p@
            + " already contains an auth block. Remove it or use a different --provider-id before installing env_key-based shim auth."@,
        IntegrationError::CodexHomeUnresolved => "could not determine CODEX_HOME; set --codex-home or CODEX_HOME"@,
        _ => message_text(e),
    }
}

impl IntegrationError {
    /// The message shown for the error.
    pub fn message(&self) -> (r: String)
        ensures
            r@ == message_text(*self),
    {
        match self {
            IntegrationError::ModelNotInCatalog(m, slugs) => {
                let joined = crate::setup::join_strings(slugs, ", ");
                let mut t = concat3("model '", m.as_str(), "' is not present in shim models.catalog. Available models: ");
                t.append(joined.as_str());
                t
            }
            IntegrationError::WebSearchUnsupported(m) => concat3("web_search mode '", m.as_str(),
                "' requires a Responses-capable profile with hosted web search enabled and every advertised catalog model to set supports_search_tool = true"),
            IntegrationError::InvalidWebSearchMode(m) => concat3("invalid web_search mode '", m.as_str(),
                "'; expected one of: disabled, cached, live"),
            IntegrationError::EmptyProviderId => owned("provider_id must not be empty"),
            IntegrationError::ReservedProviderId(p) => concat3("provider_id '", p.as_str(),
                "' is reserved by Codex; choose a different custom provider ID"),
            IntegrationError::ProjectProviderId =>
                owned("desktop project installs require provider_id 'codex_shim' to keep resume/history stable"),
            IntegrationError::AuthBlockPresent(p) => concat2(p.as_str(),
                " already contains an auth block. Remove it or use a different provider ID before installing env_key-based shim auth."),
            IntegrationError::NotATable(p) => concat2(p.as_str(), " must be a TOML table"),
            IntegrationError::InvalidToml => owned("the config file is not valid TOML"),
            IntegrationError::CodexHomeUnresolved => owned("could not determine CODEX_HOME; set codex_home or CODEX_HOME"),
            IntegrationError::TrustWithoutProject => owned("--trust-project requires --project-dir"),
            IntegrationError::CatalogPathWithProject =>
                owned("--catalog-path is not supported with --project-dir; desktop installs use a stable in-project catalog path"),
        }
    }

    /// The message the command line shows.
    pub fn cli_message(&self) -> (r: String)
        ensures
            r@ == cli_message_text(*self),
    {
        match self {
            IntegrationError::AuthBlockPresent(p) => concat2(p.as_str(),
                " already contains an auth block. Remove it or use a different --provider-id before installing env_key-based shim auth."),
            IntegrationError::CodexHomeUnresolved => owned("could not determine CODEX_HOME; set --codex-home or CODEX_HOME"),
            _ => self.message(),
        }
    }
}

/// What a command-line install writes before any file is touched: the model
/// and the `web_search` value.
#[derive(Debug)]
pub struct CliInstallPlan {
    pub model: String,
    pub web_search: Option<String>,
}

/// The first check of a command-line install: trusting a project needs one.
pub fn check_trust_request(trust_project: bool, has_project_dir: bool) -> (r: Result<(), IntegrationError>)
    ensures
        (trust_project && !has_project_dir) <==> (r matches Err(IntegrationError::TrustWithoutProject)),
        r is Ok <==> !(trust_project && !has_project_dir),
{
    if trust_project && !has_project_dir {
        Err(IntegrationError::TrustWithoutProject)
    } else {
        Ok(())
    }
}

/// The checks of a command-line install once the config is loaded and valid,
/// in order: the model (the given one or the default) must be in the
/// catalog; the web search mode must be valid and supported; a project
/// install must use the provider ID `codex_shim` and takes no catalog path.
pub fn plan_cli_install(
    config: &Config,
    caps: &ProviderCapabilities,
    model: Option<&str>,
    provider_id: &str,
    has_project_dir: bool,
    has_catalog_path: bool,
    web_search: Option<&str>,
) -> (r: Result<CliInstallPlan, IntegrationError>)
    ensures
        ({
            let target = match model { Some(m) => m@, None => config.models.default@ };
            let cat = config.models.catalog@;
            let supported = catalog_supports_search(*caps, cat);
            if !crate::config::catalog_has_slug(cat, target) {
                r matches Err(IntegrationError::ModelNotInCatalog(m, slugs))
                    && m@ == target && crate::setup::strings_view(slugs@) == slug_views(cat)
            } else if web_search matches Some(mode) && !is_search_mode(mode@) {
                r matches Err(IntegrationError::InvalidWebSearchMode(m)) && m@ == web_search->0@
            } else if web_search matches Some(mode) && mode@ != "disabled"@ && !supported {
                r matches Err(IntegrationError::WebSearchUnsupported(m)) && m@ == web_search->0@
            } else if has_project_dir && provider_id@ != "codex_shim"@ {
                r matches Err(IntegrationError::ProjectProviderId)
            } else if has_project_dir && has_catalog_path {
                r matches Err(IntegrationError::CatalogPathWithProject)
            } else {
                r matches Ok(p) && p.model@ == target && crate::events::opt_str(p.web_search) == match web_search {
                    Some(m) => Some(m@),
                    None => if supported { None } else { Some("disabled"@) },
                }
            }
        }),
{
    let target_model = match model {
        Some(m) => owned(m),
        None => config.models.default.clone(),
    };
    if !has_slug(&config.models.catalog, target_model.as_str()) {
        return Err(IntegrationError::ModelNotInCatalog(target_model, catalog_slugs(&config.models.catalog)));
    }
    let ws = match resolve_install_web_search_mode(web_search, caps, &config.models.catalog) {
        Ok(ws) => ws,
        Err(e) => return Err(e),
    };
    if has_project_dir {
        if !str_eq(provider_id, "codex_shim") {
            return Err(IntegrationError::ProjectProviderId);
        }
        if has_catalog_path {
            return Err(IntegrationError::CatalogPathWithProject);
        }
    }
    Ok(CliInstallPlan { model: target_model, web_search: ws })
}

} // verus!
