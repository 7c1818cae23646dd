//! The desktop doctor: whether a project install is one Codex desktop can use.
//! The caller reads the files; the checks, their verdicts and their wording
//! are decided here from what was read.
use vstd::prelude::*;
use toml_edit::DocumentMut;
use crate::toml::{TomlItem, TomlValue, toml_value, toml_lookup, parsed_toml, parse_toml};
use crate::integration::{DesktopCheck, DesktopCheckStatus, DesktopDoctorReport, catalog_supports_search,
    catalog_supports_web_search};
use crate::config::{Config, CatalogModelSpec, catalog_has_slug};
use crate::profile::ProviderCapabilities;
use crate::codex_config::{key1, key2, key3, path1, path2, path3};
use crate::text::{owned, concat2, concat3, str_eq};

verus! {

/// How the project catalog file compares with the catalog the shim would write.
#[derive(Debug, Clone, Copy, PartialEq, Eq, Structural)]
pub enum CatalogState {
    Missing,
    Invalid,
    Matches,
    Differs,
}

/// Where the global Codex config stands.
#[derive(Debug)]
pub enum GlobalConfigState {
    /// CODEX_HOME could not be resolved; why.
    Unresolved(String),
    /// The path of the global config, which does not exist.
    Missing(String),
    /// The path of the global config and its text.
    Present(String, String),
}

/// What the doctor reads from disk.
#[derive(Debug)]
pub struct DoctorInputs {
    pub project_dir: String,
    pub project_config_path: String,
    /// The project config's text, when the file exists.
    pub project_config_text: Option<String>,
    pub catalog_path: String,
    pub catalog: CatalogState,
    pub global_config: GlobalConfigState,
}

/// Why the doctor could not produce a report.
#[derive(Debug)]
pub enum DoctorError {
    /// A config file at this path that is not valid TOML.
    InvalidToml(String),
    /// A project catalog at this path that is not a valid catalog.
    InvalidCatalog(String),
}

pub enum DoctorErrorV {
    InvalidToml(Seq<char>),
    InvalidCatalog(Seq<char>),
}

impl View for DoctorError {
    type V = DoctorErrorV;

    open spec fn view(&self) -> DoctorErrorV {
        match self {
            DoctorError::InvalidToml(p) => DoctorErrorV::InvalidToml(p@),
            DoctorError::InvalidCatalog(p) => DoctorErrorV::InvalidCatalog(p@),
        }
    }
}

/// What `{:?}` prints for a string: it quoted, with escapes.
pub uninterp spec fn debug_str(s: Seq<char>) -> Seq<char>;

/// Wraps the `Debug` impl of `str` (`format!("{:?}", s)`); its result is
/// named by `debug_str`.
#[verifier::external_body]
fn debug_quote(s: &str) -> (r: String)
    ensures
        r@ == debug_str(s@),
{
    format!("{:?}", s)
}

pub open spec fn debug_opt_str(o: Option<Seq<char>>) -> Seq<char> {
    match o {
        Some(s) => "Some("@ + debug_str(s) + ")"@,
        None => "None"@,
    }
}

pub open spec fn debug_opt_bool(o: Option<bool>) -> Seq<char> {
    match o {
        Some(true) => "Some(true)"@,
        Some(false) => "Some(false)"@,
        None => "None"@,
    }
}

/// A check as (status, subject, detail).
pub type CheckV = (DesktopCheckStatus, Seq<char>, Seq<char>);

pub open spec fn check_view(c: DesktopCheck) -> CheckV {
    (c.status, c.subject@, c.detail@)
}

pub open spec fn checks_view(cs: Seq<DesktopCheck>) -> Seq<CheckV> {
    Seq::new(cs.len(), |i: int| check_view(cs[i]))
}

/// The string at a path of a parsed TOML text, if a string is there.
pub open spec fn str_at(text: Seq<char>, path: Seq<Seq<char>>) -> Option<Seq<char>> {
    match parsed_toml(text, path) {
        Some(TomlValue::Str(s)) => Some(s),
        _ => None,
    }
}

/// The boolean at a path of a parsed TOML text, if a boolean is there.
pub open spec fn bool_at(text: Seq<char>, path: Seq<Seq<char>>) -> Option<bool> {
    match parsed_toml(text, path) {
        Some(TomlValue::Bool(b)) => Some(b),
        _ => None,
    }
}

pub open spec fn valid_toml(text: Seq<char>) -> bool {
    parsed_toml(text, Seq::empty()) is Some
}

pub open spec fn provider_id_check(pid: Seq<char>) -> CheckV {
    if pid == "codex_shim"@ {
        (DesktopCheckStatus::Supported, "provider_id"@,
            "desktop project installs keep a stable provider identity for shim-managed history/resume"@)
    } else {
        (DesktopCheckStatus::Unsupported, "provider_id"@,
            "desktop project support requires provider_id 'codex_shim'; got '"@ + pid + "'"@)
    }
}

pub open spec fn model_provider_check(text: Seq<char>, pid: Seq<char>) -> CheckV {
    let actual = str_at(text, key1("model_provider"@));
    if actual == Some(pid) {
        (DesktopCheckStatus::Supported, "project_model_provider"@, "project config uses stable provider '"@ + pid + "'"@)
    } else {
        (DesktopCheckStatus::Unsupported, "project_model_provider"@,
            "project config model_provider is "@ + debug_opt_str(actual) + "; expected '"@ + pid + "'"@)
    }
}

pub open spec fn model_check(text: Seq<char>, catalog: Seq<CatalogModelSpec>) -> CheckV {
    match str_at(text, key1("model"@)) {
        Some(m) => if catalog_has_slug(catalog, m) {
            (DesktopCheckStatus::Supported, "project_model"@,
                "active project model '"@ + m + "' is present in shim models.catalog"@)
        } else {
            (DesktopCheckStatus::Unsupported, "project_model"@,
                "project config model '"@ + m + "' is not present in shim models.catalog"@)
        },
        None => (DesktopCheckStatus::Unsupported, "project_model"@, "project config is missing top-level model"@),
    }
}

pub open spec fn catalog_path_check(text: Seq<char>, catalog_path: Seq<char>) -> CheckV {
    let actual = str_at(text, key1("model_catalog_json"@));
    if actual == Some(catalog_path) {
        (DesktopCheckStatus::Supported, "project_model_catalog_path"@,
            "project config points at stable in-project catalog "@ + catalog_path)
    } else {
        (DesktopCheckStatus::Unsupported, "project_model_catalog_path"@,
            "project config model_catalog_json is "@ + debug_opt_str(actual) + "; expected "@ + catalog_path)
    }
}

pub open spec fn provider_block_checks(text: Seq<char>, pid: Seq<char>) -> Seq<CheckV> {
    if parsed_toml(text, key2("model_providers"@, pid)) == Some(TomlValue::Missing) {
        seq![(DesktopCheckStatus::Unsupported, "project_provider_block"@,
            "missing [model_providers."@ + pid + "] block in project config"@)]
    } else {
        let wire_api = str_at(text, key3("model_providers"@, pid, "wire_api"@));
        let websockets = bool_at(text, key3("model_providers"@, pid, "supports_websockets"@));
        seq![
            if wire_api == Some("responses"@) {
                (DesktopCheckStatus::Supported, "wire_api"@, "project provider uses wire_api = \"responses\""@)
            } else {
                (DesktopCheckStatus::Unsupported, "wire_api"@,
                    "project provider wire_api is "@ + debug_opt_str(wire_api) + "; expected \"responses\""@)
            },
            if websockets == Some(false) {
                (DesktopCheckStatus::Supported, "supports_websockets"@, "project provider keeps supports_websockets = false"@)
            } else {
                (DesktopCheckStatus::Unsupported, "supports_websockets"@,
                    "project provider supports_websockets is "@ + debug_opt_bool(websockets) + "; expected false"@)
            },
        ]
    }
}

pub open spec fn web_search_check(text: Seq<char>, search_supported: bool) -> CheckV {
    match str_at(text, key1("web_search"@)) {
        Some(mode) => if mode == "disabled"@ {
            (DesktopCheckStatus::Supported, "web_search"@, "top-level web_search is disabled"@)
        } else if mode == "cached"@ || mode == "live"@ {
            if search_supported {
                (DesktopCheckStatus::Supported, "web_search"@,
                    "top-level web_search = '"@ + mode + "' is consistent with the shim profile and catalog"@)
            } else {
                (DesktopCheckStatus::Unsupported, "web_search"@,
                    "top-level web_search = '"@ + mode
                        + "' but the active shim profile/catalog does not advertise hosted web search for every model"@)
            }
        } else {
            (DesktopCheckStatus::Unsupported, "web_search"@,
                "top-level web_search = '"@ + mode + "' is invalid; expected disabled, cached, or live"@)
        },
        None => (DesktopCheckStatus::Unsupported, "web_search"@, "project config is missing top-level web_search"@),
    }
}

/// The checks of a present, valid project config.
pub open spec fn project_config_checks(
    path: Seq<char>,
    text: Seq<char>,
    pid: Seq<char>,
    catalog: Seq<CatalogModelSpec>,
    catalog_path: Seq<char>,
    search_supported: bool,
) -> Seq<CheckV> {
    seq![
        (DesktopCheckStatus::Supported, "project_config"@, "found project config at "@ + path),
        model_provider_check(text, pid),
        model_check(text, catalog),
        catalog_path_check(text, catalog_path),
    ] + provider_block_checks(text, pid) + seq![web_search_check(text, search_supported)]
}

pub open spec fn missing_project_config_check(path: Seq<char>, project_dir: Seq<char>) -> CheckV {
    (DesktopCheckStatus::Unsupported, "project_config"@,
        "missing project config "@ + path + "; run Codex integration apply for '"@ + project_dir + "'"@)
}

pub open spec fn catalog_check(state: CatalogState, catalog_path: Seq<char>) -> CheckV {
    match state {
        CatalogState::Matches => (DesktopCheckStatus::Supported, "project_catalog"@,
            "project catalog matches the current shim config and provider profile"@),
        CatalogState::Missing => (DesktopCheckStatus::Unsupported, "project_catalog"@,
            "missing project catalog "@ + catalog_path),
        _ => (DesktopCheckStatus::Unsupported, "project_catalog"@,
            "project catalog differs from the current shim config or provider profile"@),
    }
}

pub open spec fn trust_check(global: GlobalConfigState, project_dir: Seq<char>) -> CheckV {
    match global {
        GlobalConfigState::Unresolved(e) => (DesktopCheckStatus::Unsupported, "project_trust"@,
            "could not resolve CODEX_HOME for trust validation: "@ + e@),
        GlobalConfigState::Missing(p) => (DesktopCheckStatus::Unsupported, "project_trust"@,
            "missing global Codex config "@ + p@ + "; desktop cannot trust project-scoped config without it"@),
        GlobalConfigState::Present(_, text) =>
            if str_at(text@, key3("projects"@, project_dir, "trust_level"@)) == Some("trusted"@) {
                (DesktopCheckStatus::Supported, "project_trust"@,
                    "global Codex config trusts project '"@ + project_dir + "'"@)
            } else {
                (DesktopCheckStatus::Unsupported, "project_trust"@,
                    "global Codex config does not mark '"@ + project_dir + "' as trusted"@)
            },
    }
}

pub open spec fn legacy_threads_check() -> CheckV {
    (DesktopCheckStatus::Gated, "legacy_non_shim_threads"@,
        "old non-shim desktop threads may still fail to resume with their original provider context; this depends on Codex desktop thread restoration behavior rather than codex-shim"@)
}

/// The first file that stops the doctor, in the order the doctor reads them.
pub open spec fn doctor_error(inputs: DoctorInputs) -> Option<DoctorErrorV> {
    if inputs.project_config_text matches Some(t) && !valid_toml(t@) {
        Some(DoctorErrorV::InvalidToml(inputs.project_config_path@))
    } else if inputs.catalog == CatalogState::Invalid {
        Some(DoctorErrorV::InvalidCatalog(inputs.catalog_path@))
    } else {
        match inputs.global_config {
            GlobalConfigState::Present(p, t) => if valid_toml(t@) { None } else { Some(DoctorErrorV::InvalidToml(p@)) },
            _ => None,
        }
    }
}

/// The report's checks, in order.
pub open spec fn doctor_checks(
    inputs: DoctorInputs,
    pid: Seq<char>,
    catalog: Seq<CatalogModelSpec>,
    search_supported: bool,
) -> Seq<CheckV> {
    seq![provider_id_check(pid)]
        + match inputs.project_config_text {
            Some(t) => project_config_checks(inputs.project_config_path@, t@, pid, catalog, inputs.catalog_path@, search_supported),
            None => seq![missing_project_config_check(inputs.project_config_path@, inputs.project_dir@)],
        }
        + seq![catalog_check(inputs.catalog, inputs.catalog_path@), trust_check(inputs.global_config, inputs.project_dir@),
            legacy_threads_check()]
}

fn check(status: DesktopCheckStatus, subject: &str, detail: String) -> (r: DesktopCheck)
    ensures
        check_view(r) == (status, subject@, detail@),
{
    DesktopCheck { status, subject: owned(subject), detail }
}

fn lookup_str(doc: &DocumentMut, path: &Vec<String>) -> (r: Option<String>)
    ensures
        match toml_value(*doc, crate::toml::path_view(path@)) {
            TomlValue::Str(s) => r is Some && r->0@ == s,
            _ => r is None,
        },
{
    match toml_lookup(doc, path) {
        TomlItem::Str(s) => Some(s),
        _ => None,
    }
}

fn debug_opt(o: &Option<String>) -> (r: String)
    ensures
        r@ == debug_opt_str(match o { Some(s) => Some(s@), None => None }),
{
    match o {
        Some(s) => concat3("Some(", debug_quote(s.as_str()).as_str(), ")"),
        None => owned("None"),
    }
}

proof fn lemma_checks_push(v: Seq<DesktopCheck>, c: DesktopCheck)
    ensures
        checks_view(v.push(c)) == checks_view(v).push(check_view(c)),
{
    assert(checks_view(v.push(c)) =~= checks_view(v).push(check_view(c)));
}

fn push_check(out: &mut Vec<DesktopCheck>, c: DesktopCheck)
    ensures
        checks_view(final(out)@) == checks_view(old(out)@).push(check_view(c)),
{
    proof { lemma_checks_push(old(out)@, c); }
    out.push(c);
}

fn catalog_contains(catalog: &Vec<CatalogModelSpec>, slug: &str) -> (r: bool)
    ensures
        r == catalog_has_slug(catalog@, slug@),
{
    let mut i: usize = 0;
    while i < catalog.len()
        invariant
            i <= catalog@.len(),
            forall|j: int| 0 <= j < i ==> (#[trigger] catalog@[j]).slug@ != slug@,
        decreases catalog@.len() - i,
    {
        if str_eq(catalog[i].slug.as_str(), slug) {
            return true;
        }
        i = i + 1;
    }
    false
}

fn exec_provider_id_check(pid: &str) -> (r: DesktopCheck)
    ensures
        check_view(r) == provider_id_check(pid@),
{
    if str_eq(pid, "codex_shim") {
        check(DesktopCheckStatus::Supported, "provider_id",
            owned("desktop project installs keep a stable provider identity for shim-managed history/resume"))
    } else {
        check(DesktopCheckStatus::Unsupported, "provider_id",
            concat3("desktop project support requires provider_id 'codex_shim'; got '", pid, "'"))
    }
}

fn exec_project_config_checks(
    path: &str,
    text: &str,
    doc: &DocumentMut,
    pid: &str,
    catalog: &Vec<CatalogModelSpec>,
    catalog_path: &str,
    search_supported: bool,
    out: &mut Vec<DesktopCheck>,
)
    requires
        forall|p: Seq<Seq<char>>| #[trigger] parsed_toml(text@, p) == Some(toml_value(*doc, p)),
    ensures
        checks_view(final(out)@) == checks_view(old(out)@)
            + project_config_checks(path@, text@, pid@, catalog@, catalog_path@, search_supported),
{
    let ghost start = checks_view(out@);
    push_check(out, check(DesktopCheckStatus::Supported, "project_config", concat2("found project config at ", path)));

    let actual = lookup_str(doc, &path1("model_provider"));
    let c = match &actual {
        Some(a) if str_eq(a.as_str(), pid) => check(DesktopCheckStatus::Supported, "project_model_provider",
            concat3("project config uses stable provider '", pid, "'")),
        _ => {
            let mut d = concat2("project config model_provider is ", debug_opt(&actual).as_str());
            d.append("; expected '");
            d.append(pid);
            d.append("'");
            check(DesktopCheckStatus::Unsupported, "project_model_provider", d)
        }
    };
    assert(check_view(c) == model_provider_check(text@, pid@));
    push_check(out, c);

    let model = lookup_str(doc, &path1("model"));
    let c = match &model {
        Some(m) => if catalog_contains(catalog, m.as_str()) {
            check(DesktopCheckStatus::Supported, "project_model",
                concat3("active project model '", m.as_str(), "' is present in shim models.catalog"))
        } else {
            check(DesktopCheckStatus::Unsupported, "project_model",
                concat3("project config model '", m.as_str(), "' is not present in shim models.catalog"))
        },
        None => check(DesktopCheckStatus::Unsupported, "project_model", owned("project config is missing top-level model")),
    };
    assert(check_view(c) == model_check(text@, catalog@));
    push_check(out, c);

    let actual = lookup_str(doc, &path1("model_catalog_json"));
    let c = match &actual {
        Some(a) if str_eq(a.as_str(), catalog_path) => check(DesktopCheckStatus::Supported, "project_model_catalog_path",
            concat2("project config points at stable in-project catalog ", catalog_path)),
        _ => {
            let mut d = concat2("project config model_catalog_json is ", debug_opt(&actual).as_str());
            d.append("; expected ");
            d.append(catalog_path);
            check(DesktopCheckStatus::Unsupported, "project_model_catalog_path", d)
        }
    };
    assert(check_view(c) == catalog_path_check(text@, catalog_path@));
    push_check(out, c);

    let ghost mid = checks_view(out@);
    let block = toml_lookup(doc, &path2("model_providers", pid));
    if block.is_missing() {
        let mut d = concat2("missing [model_providers.", pid);
        d.append("] block in project config");
        push_check(out, check(DesktopCheckStatus::Unsupported, "project_provider_block", d));
        assert(checks_view(out@) =~= mid + provider_block_checks(text@, pid@));
    } else {
        let wire_api = lookup_str(doc, &path3("model_providers", pid, "wire_api"));
        let c = match &wire_api {
            Some(w) if str_eq(w.as_str(), "responses") => check(DesktopCheckStatus::Supported, "wire_api",
                owned("project provider uses wire_api = \"responses\"")),
            _ => {
                let mut d = concat2("project provider wire_api is ", debug_opt(&wire_api).as_str());
                d.append("; expected \"responses\"");
                check(DesktopCheckStatus::Unsupported, "wire_api", d)
            }
        };
        let ghost c1 = check_view(c);
        push_check(out, c);
        let websockets = toml_lookup(doc, &path3("model_providers", pid, "supports_websockets"));
        let c = match websockets {
            TomlItem::Bool(false) => check(DesktopCheckStatus::Supported, "supports_websockets",
                owned("project provider keeps supports_websockets = false")),
            TomlItem::Bool(true) => check(DesktopCheckStatus::Unsupported, "supports_websockets",
                concat3("project provider supports_websockets is ", "Some(true)", "; expected false")),
            _ => check(DesktopCheckStatus::Unsupported, "supports_websockets",
                concat3("project provider supports_websockets is ", "None", "; expected false")),
        };
        let ghost c2 = check_view(c);
        push_check(out, c);
        proof {
            let ws = bool_at(text@, key3("model_providers"@, pid@, "supports_websockets"@));
            assert(c2 == (if ws == Some(false) {
                (DesktopCheckStatus::Supported, "supports_websockets"@, "project provider keeps supports_websockets = false"@)
            } else {
                (DesktopCheckStatus::Unsupported, "supports_websockets"@,
                    "project provider supports_websockets is "@ + debug_opt_bool(ws) + "; expected false"@)
            }));
            assert(checks_view(out@) =~= mid + seq![c1, c2]);
        }
    }
    assert(checks_view(out@) == mid + provider_block_checks(text@, pid@));

    let mode = lookup_str(doc, &path1("web_search"));
    let c = match &mode {
        Some(m) => if str_eq(m.as_str(), "disabled") {
            check(DesktopCheckStatus::Supported, "web_search", owned("top-level web_search is disabled"))
        } else if str_eq(m.as_str(), "cached") || str_eq(m.as_str(), "live") {
            if search_supported {
                check(DesktopCheckStatus::Supported, "web_search",
                    concat3("top-level web_search = '", m.as_str(), "' is consistent with the shim profile and catalog"))
            } else {
                check(DesktopCheckStatus::Unsupported, "web_search",
                    concat3("top-level web_search = '", m.as_str(),
                        "' but the active shim profile/catalog does not advertise hosted web search for every model"))
            }
        } else {
            check(DesktopCheckStatus::Unsupported, "web_search",
                concat3("top-level web_search = '", m.as_str(), "' is invalid; expected disabled, cached, or live"))
        },
        None => check(DesktopCheckStatus::Unsupported, "web_search", owned("project config is missing top-level web_search")),
    };
    assert(check_view(c) == web_search_check(text@, search_supported));
    push_check(out, c);
    assert(checks_view(out@) =~= start + project_config_checks(path@, text@, pid@, catalog@, catalog_path@, search_supported));
}

fn exec_trust_check(global: &GlobalConfigState, global_doc: &Option<DocumentMut>, project_dir: &str) -> (r: DesktopCheck)
    requires
        global matches GlobalConfigState::Present(_, t) ==> (global_doc matches Some(d)
            && forall|p: Seq<Seq<char>>| #[trigger] parsed_toml(t@, p) == Some(toml_value(*d, p))),
    ensures
        check_view(r) == trust_check(*global, project_dir@),
{
    match global {
        GlobalConfigState::Unresolved(e) => check(DesktopCheckStatus::Unsupported, "project_trust",
            concat2("could not resolve CODEX_HOME for trust validation: ", e.as_str())),
        GlobalConfigState::Missing(p) => check(DesktopCheckStatus::Unsupported, "project_trust",
            concat3("missing global Codex config ", p.as_str(), "; desktop cannot trust project-scoped config without it")),
        GlobalConfigState::Present(_, _) => {
            let level = match global_doc {
                Some(d) => lookup_str(d, &path3("projects", project_dir, "trust_level")),
                None => None,
            };
            match &level {
                Some(l) if str_eq(l.as_str(), "trusted") => check(DesktopCheckStatus::Supported, "project_trust",
                    concat3("global Codex config trusts project '", project_dir, "'")),
                _ => check(DesktopCheckStatus::Unsupported, "project_trust",
                    concat3("global Codex config does not mark '", project_dir, "' as trusted")),
            }
        }
    }
}

/// The desktop doctor's report on a project install, from what was read of
/// the project config, the project catalog and the global Codex config; or
/// the first of those files that cannot be read as what it should be.
pub fn build_desktop_doctor_report(
    config: &Config,
    caps: &ProviderCapabilities,
    inputs: &DoctorInputs,
    provider_id: &str,
) -> (r: Result<DesktopDoctorReport, DoctorError>)
    ensures
        match r {
            Ok(rep) => doctor_error(*inputs) is None && checks_view(rep.checks@) == doctor_checks(
                *inputs, provider_id@, config.models.catalog@, catalog_supports_search(*caps, config.models.catalog@)),
            Err(e) => doctor_error(*inputs) == Some(e@),
        },
{
    let search_supported = catalog_supports_web_search(caps, &config.models.catalog);
    let mut checks: Vec<DesktopCheck> = Vec::new();
    push_check(&mut checks, exec_provider_id_check(provider_id));
    match &inputs.project_config_text {
        Some(text) => {
            let doc = match parse_toml(text.as_str()) {
                Some(d) => d,
                None => return Err(DoctorError::InvalidToml(inputs.project_config_path.clone())),
            };
            exec_project_config_checks(inputs.project_config_path.as_str(), text.as_str(), &doc, provider_id,
                &config.models.catalog, inputs.catalog_path.as_str(), search_supported, &mut checks);
        }
        None => {
            let mut d = concat3("missing project config ", inputs.project_config_path.as_str(),
                "; run Codex integration apply for '");
            d.append(inputs.project_dir.as_str());
            d.append("'");
            push_check(&mut checks, check(DesktopCheckStatus::Unsupported, "project_config", d));
        }
    }
    let c = match inputs.catalog {
        CatalogState::Matches => check(DesktopCheckStatus::Supported, "project_catalog",
            owned("project catalog matches the current shim config and provider profile")),
        CatalogState::Missing => check(DesktopCheckStatus::Unsupported, "project_catalog",
            concat2("missing project catalog ", inputs.catalog_path.as_str())),
        CatalogState::Differs => check(DesktopCheckStatus::Unsupported, "project_catalog",
            owned("project catalog differs from the current shim config or provider profile")),
        CatalogState::Invalid => return Err(DoctorError::InvalidCatalog(inputs.catalog_path.clone())),
    };
    push_check(&mut checks, c);
    let global_doc = match &inputs.global_config {
        GlobalConfigState::Present(p, text) => match parse_toml(text.as_str()) {
            Some(d) => Some(d),
            None => return Err(DoctorError::InvalidToml(p.clone())),
        },
        _ => None,
    };
    push_check(&mut checks, exec_trust_check(&inputs.global_config, &global_doc, inputs.project_dir.as_str()));
    push_check(&mut checks, check(DesktopCheckStatus::Gated, "legacy_non_shim_threads",
        owned("old non-shim desktop threads may still fail to resume with their original provider context; this depends on Codex desktop thread restoration behavior rather than codex-shim")));
    Ok(DesktopDoctorReport { checks })
}

} // verus!
