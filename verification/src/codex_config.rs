//! The Codex config edits of an integration install: the provider entry and
//! top-level keys written into `config.toml`, and the trust entry of a
//! project. Every key the install does not manage is left as it was.
use vstd::prelude::*;
use toml_edit::DocumentMut;
use crate::toml::{TomlItem, TomlValue, toml_value, toml_lookup, toml_set, toml_remove, path_view, within, settable_under, under_key,
    parsed_toml, parse_toml, new_toml_document, render_toml, rendered_toml};
use crate::integration::{IntegrationError, is_search_mode, is_web_search_mode, normalize_toml};
use crate::text::{owned, concat2, concat3, str_eq, is_blank, all_white};

verus! {

/// Provider IDs that Codex reserves for its built-in providers.
pub open spec fn reserved_provider_id(p: Seq<char>) -> bool {
    p == "openai"@ || p == "ollama"@ || p == "lmstudio"@ || p == "amazon-bedrock"@
}

pub open spec fn key1(a: Seq<char>) -> Seq<Seq<char>> {
    seq![a]
}

pub open spec fn key2(a: Seq<char>, b: Seq<char>) -> Seq<Seq<char>> {
    seq![a, b]
}

pub open spec fn key3(a: Seq<char>, b: Seq<char>, c: Seq<char>) -> Seq<Seq<char>> {
    seq![a, b, c]
}

/// The root and the `model_providers` table: the tables above a provider entry.
pub open spec fn above_provider(q: Seq<Seq<char>>) -> bool {
    q.len() == 0 || (q.len() == 1 && q[0] == "model_providers"@)
}

/// Paths at or under the table `[model_providers.<provider_id>]`.
pub open spec fn under_provider(q: Seq<Seq<char>>, provider_id: Seq<char>) -> bool {
    q.len() >= 2 && q[0] == "model_providers"@ && q[1] == provider_id
}

/// Whether something other than a standard table (or nothing) is at a path.
pub open spec fn blocks_table(v: TomlValue) -> bool {
    !(v is Table || v is Missing)
}

pub(crate) fn path1(a: &str) -> (r: Vec<String>)
    ensures
        path_view(r@) == key1(a@),
{
    let mut v: Vec<String> = Vec::new();
    v.push(owned(a));
    assert(path_view(v@) =~= key1(a@));
    v
}

pub(crate) fn path2(a: &str, b: &str) -> (r: Vec<String>)
    ensures
        path_view(r@) == key2(a@, b@),
{
    let mut v: Vec<String> = Vec::new();
    v.push(owned(a));
    v.push(owned(b));
    assert(path_view(v@) =~= key2(a@, b@));
    v
}

pub(crate) fn path3(a: &str, b: &str, c: &str) -> (r: Vec<String>)
    ensures
        path_view(r@) == key3(a@, b@, c@),
{
    let mut v: Vec<String> = Vec::new();
    v.push(owned(a));
    v.push(owned(b));
    v.push(owned(c));
    assert(path_view(v@) =~= key3(a@, b@, c@));
    v
}

fn is_reserved_provider_id(p: &str) -> (r: bool)
    ensures
        r == reserved_provider_id(p@),
{
    str_eq(p, "openai") || str_eq(p, "ollama") || str_eq(p, "lmstudio") || str_eq(p, "amazon-bedrock")
}

fn set_str(doc: &mut DocumentMut, tables: &Vec<String>, key: &str, value: &str)
    requires
        settable_under(*old(doc), path_view(tables@)),
    ensures
        toml_value(*final(doc), path_view(tables@).push(key@)) == TomlValue::Str(value@),
        forall|k: int| 0 <= k <= tables@.len() ==> #[trigger] toml_value(*final(doc), path_view(tables@).take(k)) is Table,
        forall|q: Seq<Seq<char>>| within(q, path_view(tables@).push(key@)) && q != path_view(tables@).push(key@) ==> #[trigger] toml_value(*final(doc), q) is Missing,
        forall|q: Seq<Seq<char>>| !within(q, path_view(tables@).push(key@)) && !within(path_view(tables@), q) ==> #[trigger] toml_value(*final(doc), q) == toml_value(*old(doc), q),
{
    toml_set(doc, tables, key, &TomlItem::Str(owned(value)));
}

proof fn lemma_root_settable(doc: DocumentMut)
    requires
        toml_value(doc, Seq::empty()) is Table,
    ensures
        settable_under(doc, path_view(Seq::<String>::empty())),
{
    assert forall|k: int| 0 <= k <= 0 implies {
        let v = #[trigger] toml_value(doc, path_view(Seq::<String>::empty()).take(k));
        v is Table || v is Missing
    } by {
        assert(path_view(Seq::<String>::empty()).take(k) =~= Seq::<Seq<char>>::empty());
    }
}

/// `within` compares the leading keys one by one.
proof fn lemma_within_elementwise(q: Seq<Seq<char>>, p: Seq<Seq<char>>)
    ensures
        within(q, p) <==> (p.len() <= q.len() && forall|i: int| 0 <= i < p.len() ==> q[i] == p[i]),
{
    if p.len() <= q.len() {
        if q.take(p.len() as int) == p {
            assert forall|i: int| 0 <= i < p.len() implies q[i] == p[i] by {
                assert(q.take(p.len() as int)[i] == q[i]);
            }
        }
        if forall|i: int| 0 <= i < p.len() ==> q[i] == p[i] {
            assert(q.take(p.len() as int) =~= p);
        }
    }
}

/// The key names an install writes are pairwise distinct.
proof fn lemma_key_names_distinct()
    ensures
        "model_providers"@ != "model_provider"@,
        "model_providers"@ != "model"@,
        "model_providers"@ != "model_catalog_json"@,
        "model_providers"@ != "web_search"@,
        "name"@ != "model_catalog_json"@,
        "name"@ != "base_url"@,
        "name"@ != "wire_api"@,
        "name"@ != "supports_websockets"@,
        "name"@ != "env_key"@,
        "name"@ != "env_key_instructions"@,
        "model_catalog_json"@ != "base_url"@,
        "model_catalog_json"@ != "wire_api"@,
        "model_catalog_json"@ != "supports_websockets"@,
        "model_catalog_json"@ != "env_key"@,
        "model_catalog_json"@ != "env_key_instructions"@,
        "base_url"@ != "wire_api"@,
        "base_url"@ != "supports_websockets"@,
        "base_url"@ != "env_key"@,
        "base_url"@ != "env_key_instructions"@,
        "wire_api"@ != "supports_websockets"@,
        "wire_api"@ != "env_key"@,
        "wire_api"@ != "env_key_instructions"@,
        "supports_websockets"@ != "env_key"@,
        "supports_websockets"@ != "env_key_instructions"@,
        "env_key"@ != "env_key_instructions"@,
{
    reveal_strlit("model_providers");
    reveal_strlit("model_provider");
    reveal_strlit("model");
    reveal_strlit("model_catalog_json");
    reveal_strlit("web_search");
    reveal_strlit("name");
    reveal_strlit("base_url");
    reveal_strlit("wire_api");
    reveal_strlit("supports_websockets");
    reveal_strlit("env_key");
    reveal_strlit("env_key_instructions");
    assert("model_providers"@.len() == 15);
    assert("model_provider"@.len() == 14);
    assert("model"@.len() == 5);
    assert("model_catalog_json"@.len() == 18);
    assert("web_search"@.len() == 10);
    assert("name"@.len() == 4);
    assert("base_url"@.len() == 8);
    assert("wire_api"@.len() == 8);
    assert("supports_websockets"@.len() == 19);
    assert("env_key"@.len() == 7);
    assert("env_key_instructions"@.len() == 20);
    assert("base_url"@[0] != "wire_api"@[0]);
}

pub open spec fn str_opt(o: Option<&str>) -> Option<Seq<char>> {
    match o {
        Some(s) => Some(s@),
        None => None,
    }
}

/// Whether an install writes `web_search`: when a mode is given, or when the
/// config has none.
pub open spec fn web_search_written(d: DocumentMut, web_search: Option<Seq<char>>) -> bool {
    web_search is Some || toml_value(d, key1("web_search"@)) is Missing
}

/// A top-level string key's value at `q`, at or under the key.
pub open spec fn key_or_below(q: Seq<Seq<char>>, v: TomlValue) -> TomlValue {
    if q.len() == 1 { v } else { TomlValue::Missing }
}

/// What the top-level keys of an install leave at `q`: the provider ID, the
/// model, the catalog path and (when it is written) the web search mode at
/// their keys, nothing under them, and everything else as in `d`.
pub open spec fn top_level_value(
    d: DocumentMut,
    q: Seq<Seq<char>>,
    pid: Seq<char>,
    model: Seq<char>,
    catalog: Seq<char>,
    web_search: Option<Seq<char>>,
) -> TomlValue {
    if under_key(q, "model_provider"@) {
        key_or_below(q, TomlValue::Str(pid))
    } else if under_key(q, "model"@) {
        key_or_below(q, TomlValue::Str(model))
    } else if under_key(q, "model_catalog_json"@) {
        key_or_below(q, TomlValue::Str(catalog))
    } else if under_key(q, "web_search"@) && web_search_written(d, web_search) {
        key_or_below(q, TomlValue::Str(match web_search {
            Some(m) => m,
            None => "disabled"@,
        }))
    } else {
        toml_value(d, q)
    }
}

/// The keys an install manages in its provider's table.
pub open spec fn entry_key(k: Seq<char>) -> bool {
    k == "name"@ || k == "model_catalog_json"@ || k == "base_url"@ || k == "wire_api"@
        || k == "supports_websockets"@ || k == "env_key"@ || k == "env_key_instructions"@
}

/// What an install leaves at a managed key of its provider's table.
pub open spec fn entry_key_value(k: Seq<char>, base_url: Seq<char>, env_key: Option<Seq<char>>) -> TomlValue {
    if k == "name"@ {
        TomlValue::Str("codex-shim"@)
    } else if k == "base_url"@ {
        TomlValue::Str(base_url)
    } else if k == "wire_api"@ {
        TomlValue::Str("responses"@)
    } else if k == "supports_websockets"@ {
        TomlValue::Bool(false)
    } else if k == "env_key"@ {
        match env_key {
            Some(e) => TomlValue::Str(e),
            None => TomlValue::Missing,
        }
    } else if k == "env_key_instructions"@ {
        match env_key {
            Some(e) => TomlValue::Str("Set "@ + e + " before starting Codex."@),
            None => TomlValue::Missing,
        }
    } else {
        TomlValue::Missing
    }
}

/// The paths an install's provider entry decides: the root, `model_providers`,
/// the provider's table, and each managed key of it with what lies under it.
pub open spec fn in_provider_region(q: Seq<Seq<char>>, pid: Seq<char>) -> bool {
    ||| above_provider(q)
    ||| q == key2("model_providers"@, pid)
    ||| (under_provider(q, pid) && q.len() >= 3 && entry_key(q[2]))
}

/// What an install leaves on its provider entry's paths: tables above and
/// at the entry, the managed keys' values, nothing under them.
pub open spec fn provider_region_value(q: Seq<Seq<char>>, base_url: Seq<char>, env_key: Option<Seq<char>>) -> TomlValue {
    if q.len() <= 2 {
        TomlValue::Table
    } else if q.len() == 3 {
        entry_key_value(q[2], base_url, env_key)
    } else {
        TomlValue::Missing
    }
}

/// What a successful install merge leaves at every path `q` of a config `d`:
/// its provider entry, its top-level keys, and everything else unchanged.
pub open spec fn installed_value(
    d: DocumentMut,
    q: Seq<Seq<char>>,
    pid: Seq<char>,
    model: Seq<char>,
    catalog: Seq<char>,
    base_url: Seq<char>,
    env_key: Option<Seq<char>>,
    web_search: Option<Seq<char>>,
) -> TomlValue {
    if in_provider_region(q, pid) {
        provider_region_value(q, base_url, env_key)
    } else {
        top_level_value(d, q, pid, model, catalog, web_search)
    }
}

/// Sets one top-level string key: its value is `value`, nothing is under it,
/// and everything else is as it was.
fn set_top(doc: &mut DocumentMut, key: &str, value: &str)
    requires
        toml_value(*old(doc), Seq::empty()) is Table,
    ensures
        toml_value(*final(doc), Seq::empty()) is Table,
        forall|q: Seq<Seq<char>>| #[trigger] toml_value(*final(doc), q) == if under_key(q, key@) {
            key_or_below(q, TomlValue::Str(value@))
        } else {
            toml_value(*old(doc), q)
        },
{
    let ghost d0 = *doc;
    let root: Vec<String> = Vec::new();
    let ghost rp = path_view(root@);
    assert(rp =~= Seq::<Seq<char>>::empty());
    proof { lemma_root_settable(*doc); }
    set_str(doc, &root, key, value);
    proof {
        assert(rp.take(0) =~= rp);
        assert forall|q: Seq<Seq<char>>| #[trigger] toml_value(*doc, q) == if under_key(q, key@) {
            key_or_below(q, TomlValue::Str(value@))
        } else {
            toml_value(d0, q)
        } by {
            lemma_within_elementwise(q, rp.push(key@));
            lemma_within_elementwise(rp, q);
            if q.len() == 0 {
                assert(q =~= rp.take(0));
            } else if q.len() == 1 && under_key(q, key@) {
                assert(q =~= rp.push(key@));
            }
        }
    }
}

/// The four top-level key names an install writes are pairwise distinct.
proof fn lemma_top_names_distinct()
    ensures
        "model_provider"@ != "model"@,
        "model_provider"@ != "model_catalog_json"@,
        "model_provider"@ != "web_search"@,
        "model"@ != "model_catalog_json"@,
        "model"@ != "web_search"@,
        "model_catalog_json"@ != "web_search"@,
{
    reveal_strlit("model_provider");
    reveal_strlit("model");
    reveal_strlit("model_catalog_json");
    reveal_strlit("web_search");
    assert("model_provider"@.len() == 14);
    assert("model"@.len() == 5);
    assert("model_catalog_json"@.len() == 18);
    assert("web_search"@.len() == 10);
}

/// Writes the four top-level keys (`web_search` only when a mode is given or
/// none is set); nothing else changes.
fn write_top_level(
    doc: &mut DocumentMut,
    provider_id: &str,
    model: &str,
    catalog_path: &str,
    web_search: Option<&str>,
)
    requires
        toml_value(*old(doc), Seq::empty()) is Table,
    ensures
        toml_value(*final(doc), Seq::empty()) is Table,
        forall|q: Seq<Seq<char>>| #[trigger] toml_value(*final(doc), q)
            == top_level_value(*old(doc), q, provider_id@, model@, catalog_path@, str_opt(web_search)),
{
    let ghost d0 = *doc;
    let had_web_search = !toml_lookup(doc, &path1("web_search")).is_missing();
    set_top(doc, "model_provider", provider_id);
    let ghost d1 = *doc;
    set_top(doc, "model", model);
    let ghost d2 = *doc;
    set_top(doc, "model_catalog_json", catalog_path);
    let ghost d3 = *doc;
    let set_web_search = match web_search {
        Some(_) => true,
        None => !had_web_search,
    };
    if set_web_search {
        let mode = match web_search {
            Some(m) => m,
            None => "disabled",
        };
        set_top(doc, "web_search", mode);
    }
    proof {
        lemma_key_names_distinct();
        lemma_top_names_distinct();
        assert(set_web_search == web_search_written(d0, str_opt(web_search)));
        assert forall|q: Seq<Seq<char>>| #[trigger] toml_value(*doc, q)
            == top_level_value(d0, q, provider_id@, model@, catalog_path@, str_opt(web_search)) by {
            assert(toml_value(d1, q) == if under_key(q, "model_provider"@) {
                key_or_below(q, TomlValue::Str(provider_id@))
            } else {
                toml_value(d0, q)
            });
            assert(toml_value(d2, q) == if under_key(q, "model"@) {
                key_or_below(q, TomlValue::Str(model@))
            } else {
                toml_value(d1, q)
            });
            assert(toml_value(d3, q) == if under_key(q, "model_catalog_json"@) {
                key_or_below(q, TomlValue::Str(catalog_path@))
            } else {
                toml_value(d2, q)
            });
        }
    }
}

/// Sets one managed key of the provider's table `t`: its value is `value`,
/// nothing is under it, the tables along `t` are tables, everything else is
/// as it was.
fn set_entry(doc: &mut DocumentMut, tables: &Vec<String>, key: &str, value: &TomlItem)
    requires
        tables@.len() == 2,
        settable_under(*old(doc), path_view(tables@)),
        value is Str || value is Bool,
    ensures
        forall|k: int| 0 <= k <= 2 ==> #[trigger] toml_value(*final(doc), path_view(tables@).take(k)) is Table,
        forall|q: Seq<Seq<char>>| #[trigger] toml_value(*final(doc), q) == if within(q, path_view(tables@).push(key@)) {
            if q.len() == 3 { value@ } else { TomlValue::Missing }
        } else if within(path_view(tables@), q) {
            TomlValue::Table
        } else {
            toml_value(*old(doc), q)
        },
{
    let ghost d0 = *doc;
    let ghost t = path_view(tables@);
    toml_set(doc, tables, key, value);
    proof {
        assert forall|q: Seq<Seq<char>>| #[trigger] toml_value(*doc, q) == if within(q, t.push(key@)) {
            if q.len() == 3 { value@ } else { TomlValue::Missing }
        } else if within(t, q) {
            TomlValue::Table
        } else {
            toml_value(d0, q)
        } by {
            if within(q, t.push(key@)) {
                if q.len() == 3 {
                    assert(q =~= t.push(key@));
                }
            } else if within(t, q) {
                assert(t.take(q.len() as int) =~= q);
            }
        }
    }
}

/// Removes one managed key of the provider's table `t`, whose tables are
/// there: nothing is left at or under it, everything else is as it was.
fn remove_entry(doc: &mut DocumentMut, tables: &Vec<String>, key: &str)
    requires
        tables@.len() == 2,
        forall|k: int| 0 <= k <= 2 ==> #[trigger] toml_value(*old(doc), path_view(tables@).take(k)) is Table,
    ensures
        forall|k: int| 0 <= k <= 2 ==> #[trigger] toml_value(*final(doc), path_view(tables@).take(k)) is Table,
        forall|q: Seq<Seq<char>>| #[trigger] toml_value(*final(doc), q) == if within(q, path_view(tables@).push(key@)) {
            TomlValue::Missing
        } else if within(path_view(tables@), q) {
            TomlValue::Table
        } else {
            toml_value(*old(doc), q)
        },
{
    let ghost d0 = *doc;
    let ghost t = path_view(tables@);
    toml_remove(doc, tables, key);
    proof {
        assert forall|k: int| 0 <= k <= 2 implies #[trigger] toml_value(*doc, t.take(k)) is Table by {
            lemma_within_elementwise(t.take(k), t.push(key@));
        }
        assert forall|q: Seq<Seq<char>>| #[trigger] toml_value(*doc, q) == if within(q, t.push(key@)) {
            TomlValue::Missing
        } else if within(t, q) {
            TomlValue::Table
        } else {
            toml_value(d0, q)
        } by {
            if !within(q, t.push(key@)) && within(t, q) {
                assert(t.take(q.len() as int) =~= q);
                lemma_within_elementwise(q, t.push(key@));
            }
        }
    }
}

/// How a path relates to the provider's table `t` and one key `k` of it.
proof fn lemma_entry_path(q: Seq<Seq<char>>, t: Seq<Seq<char>>, k: Seq<char>)
    requires
        t.len() == 2,
    ensures
        within(q, t.push(k)) <==> (q.len() >= 3 && q[0] == t[0] && q[1] == t[1] && q[2] == k),
        within(t, q) <==> (q.len() <= 2 && forall|i: int| 0 <= i < q.len() ==> q[i] == t[i]),
{
    lemma_within_elementwise(q, t.push(k));
    lemma_within_elementwise(t, q);
}

/// Fills the table `[model_providers.<provider_id>]`: its managed keys get
/// the install's values, the tables above it and itself are tables, and
/// nothing else changes.
#[verifier::rlimit(60)]
fn write_provider_entry(doc: &mut DocumentMut, provider_id: &str, base_url: &str, env_key: Option<&str>)
    requires
        settable_under(*old(doc), key2("model_providers"@, provider_id@)),
    ensures
        forall|q: Seq<Seq<char>>| #[trigger] toml_value(*final(doc), q) == if in_provider_region(q, provider_id@) {
            provider_region_value(q, base_url@, str_opt(env_key))
        } else {
            toml_value(*old(doc), q)
        },
{
    let ghost d0 = *doc;
    let tables: Vec<String> = path2("model_providers", provider_id);
    let ghost t = path_view(tables@);
    let ghost pid = provider_id@;
    set_entry(doc, &tables, "name", &TomlItem::Str(owned("codex-shim")));
    let ghost d1 = *doc;
    proof {
        assert forall|k: int| 0 <= k <= 2 implies #[trigger] toml_value(d1, t.take(k)) is Table by {}
    }
    remove_entry(doc, &tables, "model_catalog_json");
    let ghost d2 = *doc;
    proof {
        assert forall|k: int| 0 <= k <= t.len() implies {
            let v = #[trigger] toml_value(d2, t.take(k));
            v is Table || v is Missing
        } by {}
    }
    set_entry(doc, &tables, "base_url", &TomlItem::Str(owned(base_url)));
    let ghost d3 = *doc;
    set_entry(doc, &tables, "wire_api", &TomlItem::Str(owned("responses")));
    let ghost d4 = *doc;
    set_entry(doc, &tables, "supports_websockets", &TomlItem::Bool(false));
    let ghost d5 = *doc;
    let ghost mut d6 = *doc;
    match env_key {
        Some(key) => {
            set_entry(doc, &tables, "env_key", &TomlItem::Str(owned(key)));
            proof { d6 = *doc; }
            let instructions = concat3("Set ", key, " before starting Codex.");
            set_entry(doc, &tables, "env_key_instructions", &TomlItem::Str(instructions));
        }
        None => {
            remove_entry(doc, &tables, "env_key");
            proof { d6 = *doc; }
            remove_entry(doc, &tables, "env_key_instructions");
        }
    }
    proof {
        let d7 = *doc;
        lemma_key_names_distinct();
        assert(t =~= key2("model_providers"@, pid));
        assert forall|q: Seq<Seq<char>>| #[trigger] toml_value(d7, q) == if in_provider_region(q, pid) {
            provider_region_value(q, base_url@, str_opt(env_key))
        } else {
            toml_value(d0, q)
        } by {
            lemma_entry_path(q, t, "name"@);
            lemma_entry_path(q, t, "model_catalog_json"@);
            lemma_entry_path(q, t, "base_url"@);
            lemma_entry_path(q, t, "wire_api"@);
            lemma_entry_path(q, t, "supports_websockets"@);
            lemma_entry_path(q, t, "env_key"@);
            lemma_entry_path(q, t, "env_key_instructions"@);
            if q.len() == 2 && q[0] == t[0] && q[1] == t[1] {
                assert(q =~= t);
            }
            if q == key2("model_providers"@, pid) {
                assert(q.len() == 2 && q[0] == t[0] && q[1] == t[1]);
            }
        }
    }
}

/// Whether an install merge may go ahead, and otherwise the refusal, in the
/// order the checks run: the provider ID, the web search mode, then what the
/// config holds at `model_providers`, at the provider's table and at its
/// `auth` key.
pub open spec fn merge_outcome(
    r: Result<(), IntegrationError>,
    pid: Seq<char>,
    env_key_given: bool,
    web_search: Option<Seq<char>>,
    providers: TomlValue,
    provider: TomlValue,
    auth: TomlValue,
) -> bool {
    if all_white(pid) {
        r matches Err(IntegrationError::EmptyProviderId)
    } else if reserved_provider_id(pid) {
        r matches Err(IntegrationError::ReservedProviderId(p)) && p@ == pid
    } else if web_search matches Some(m) && !is_search_mode(m) {
        r matches Err(IntegrationError::InvalidWebSearchMode(m)) && Some(m@) == web_search
    } else if blocks_table(providers) {
        r matches Err(IntegrationError::NotATable(p)) && p@ == "model_providers"@
    } else if blocks_table(provider) {
        r matches Err(IntegrationError::NotATable(p)) && p@ == "model_providers."@ + pid
    } else if env_key_given && !(auth is Missing) {
        r matches Err(IntegrationError::AuthBlockPresent(p)) && p@ == "model_providers."@ + pid
    } else {
        r is Ok
    }
}

/// Whether an install merge is refused before it writes anything: a blank or
/// reserved provider ID, or an unknown web search mode. A refusal for what
/// the config holds comes after the top-level keys are written.
pub open spec fn refused_before_writing(pid: Seq<char>, web_search: Option<Seq<char>>) -> bool {
    all_white(pid) || reserved_provider_id(pid) || (web_search matches Some(m) && !is_search_mode(m))
}

/// Writes the shim's provider entry and top-level keys into a Codex config:
/// `model_provider`, `model`, `model_catalog_json` and `web_search` (kept when
/// already set and no mode is given, `disabled` when unset), and under
/// `[model_providers.<id>]` the name, base URL, Responses wire API, no
/// websockets, and the env key with its instructions (or neither). Every
/// other key keeps its value.
pub fn merge_codex_config_document(
    doc: &mut DocumentMut,
    provider_id: &str,
    model: &str,
    catalog_path: &str,
    base_url: &str,
    env_key: Option<&str>,
    web_search: Option<&str>,
) -> (r: Result<(), IntegrationError>)
    requires
        toml_value(*old(doc), Seq::empty()) is Table,
    ensures
        merge_outcome(r, provider_id@, env_key is Some, str_opt(web_search),
            toml_value(*old(doc), key1("model_providers"@)),
            toml_value(*old(doc), key2("model_providers"@, provider_id@)),
            toml_value(*old(doc), key3("model_providers"@, provider_id@, "auth"@))),
        r is Ok ==> forall|q: Seq<Seq<char>>| #[trigger] toml_value(*final(doc), q) == installed_value(*old(doc), q,
            provider_id@, model@, catalog_path@, base_url@, str_opt(env_key), str_opt(web_search)),
        refused_before_writing(provider_id@, str_opt(web_search)) ==> *final(doc) == *old(doc),
        r is Err && !refused_before_writing(provider_id@, str_opt(web_search)) ==> forall|q: Seq<Seq<char>>|
            #[trigger] toml_value(*final(doc), q) == top_level_value(*old(doc), q, provider_id@, model@, catalog_path@, str_opt(web_search)),
{
    if is_blank(provider_id) {
        return Err(IntegrationError::EmptyProviderId);
    }
    if is_reserved_provider_id(provider_id) {
        return Err(IntegrationError::ReservedProviderId(owned(provider_id)));
    }
    if let Some(mode) = web_search {
        if !is_web_search_mode(mode) {
            return Err(IntegrationError::InvalidWebSearchMode(owned(mode)));
        }
    }
    let ghost d0 = *doc;
    let providers_item = toml_lookup(doc, &path1("model_providers"));
    let provider_item = toml_lookup(doc, &path2("model_providers", provider_id));
    let auth_item = toml_lookup(doc, &path3("model_providers", provider_id, "auth"));
    write_top_level(doc, provider_id, model, catalog_path, web_search);
    let ghost d1 = *doc;
    match providers_item {
        TomlItem::Table => {}
        TomlItem::Missing => {}
        _ => {
            return Err(IntegrationError::NotATable(owned("model_providers")));
        }
    }
    let provider_path = concat2("model_providers.", provider_id);
    match provider_item {
        TomlItem::Table => {}
        TomlItem::Missing => {}
        _ => {
            return Err(IntegrationError::NotATable(provider_path));
        }
    }
    if env_key.is_some() && !auth_item.is_missing() {
        return Err(IntegrationError::AuthBlockPresent(provider_path));
    }
    proof {
        let t = key2("model_providers"@, provider_id@);
        lemma_key_names_distinct();
        assert(t.take(0) =~= Seq::<Seq<char>>::empty());
        assert(t.take(1) =~= key1("model_providers"@));
        assert(t.take(2) =~= t);
        assert(toml_value(d1, key1("model_providers"@)) == toml_value(d0, key1("model_providers"@)));
        assert(toml_value(d1, t) == toml_value(d0, t));
        assert forall|k: int| 0 <= k <= t.len() implies {
            let v = #[trigger] toml_value(d1, t.take(k));
            v is Table || v is Missing
        } by {
            if k == 0 {
                assert(toml_value(d1, t.take(0)) == toml_value(d0, Seq::<Seq<char>>::empty()));
            }
        }
    }
    write_provider_entry(doc, provider_id, base_url, env_key);
    proof {
        lemma_key_names_distinct();
        let d2 = *doc;
        assert forall|q: Seq<Seq<char>>| #[trigger] toml_value(d2, q) == installed_value(d0, q,
            provider_id@, model@, catalog_path@, base_url@, str_opt(env_key), str_opt(web_search)) by {
            assert(toml_value(d1, q) == top_level_value(d0, q, provider_id@, model@, catalog_path@, str_opt(web_search)));
        }
    }
    Ok(())
}

/// Installing twice with the same settings gives what installing once gave:
/// every path of the config holds the same value after the second install.
pub proof fn law_install_idempotent(
    d0: DocumentMut,
    d1: DocumentMut,
    d2: DocumentMut,
    pid: Seq<char>,
    model: Seq<char>,
    catalog: Seq<char>,
    base_url: Seq<char>,
    env_key: Option<Seq<char>>,
    web_search: Option<Seq<char>>,
)
    requires
        forall|q: Seq<Seq<char>>| #[trigger] toml_value(d1, q) == installed_value(d0, q, pid, model, catalog, base_url, env_key, web_search),
        forall|q: Seq<Seq<char>>| #[trigger] toml_value(d2, q) == installed_value(d1, q, pid, model, catalog, base_url, env_key, web_search),
    ensures
        forall|q: Seq<Seq<char>>| #[trigger] toml_value(d2, q) == toml_value(d1, q),
{
    lemma_key_names_distinct();
    let ws = key1("web_search"@);
    assert(under_key(ws, "web_search"@));
    assert(!in_provider_region(ws, pid));
    assert(!(toml_value(d1, ws) is Missing));
    assert forall|q: Seq<Seq<char>>| #[trigger] toml_value(d2, q) == toml_value(d1, q) by {
        if under_key(q, "web_search"@) && q.len() == 1 {
            assert(q =~= ws);
        }
    }
}

/// An install leaves every key it does not manage as it was, other keys of
/// its provider's table among them.
pub proof fn law_install_keeps_unmanaged_keys(
    d0: DocumentMut,
    d1: DocumentMut,
    pid: Seq<char>,
    model: Seq<char>,
    catalog: Seq<char>,
    base_url: Seq<char>,
    env_key: Option<Seq<char>>,
    web_search: Option<Seq<char>>,
    q: Seq<Seq<char>>,
)
    requires
        forall|p: Seq<Seq<char>>| #[trigger] toml_value(d1, p) == installed_value(d0, p, pid, model, catalog, base_url, env_key, web_search),
        !in_provider_region(q, pid),
        !under_key(q, "model_provider"@),
        !under_key(q, "model"@),
        !under_key(q, "model_catalog_json"@),
        !under_key(q, "web_search"@),
    ensures
        toml_value(d1, q) == toml_value(d0, q),
{
}

/// What a config file's text holds at a key path, once parsed: a blank text
/// is an empty document.
pub open spec fn config_text_value(text: Seq<char>, path: Seq<Seq<char>>) -> Option<TomlValue> {
    if all_white(text) {
        if path.len() == 0 { Some(TomlValue::Table) } else { Some(TomlValue::Missing) }
    } else {
        parsed_toml(text, path)
    }
}

/// The document of a config file's text: an empty one for a blank text,
/// `None` when the text is not valid TOML.
pub fn parse_toml_document(existing: &str) -> (r: Option<DocumentMut>)
    ensures
        r is Some <==> config_text_value(existing@, Seq::empty()) is Some,
        r matches Some(d) ==> toml_value(d, Seq::empty()) is Table,
        r matches Some(d) ==> forall|p: Seq<Seq<char>>| #[trigger] config_text_value(existing@, p) == Some(toml_value(d, p)),
{
    if is_blank(existing) {
        let d = new_toml_document();
        proof {
            assert forall|p: Seq<Seq<char>>| #[trigger] config_text_value(existing@, p) == Some(toml_value(d, p)) by {
                if p.len() == 0 {
                    assert(p =~= Seq::<Seq<char>>::empty());
                }
            }
        }
        Some(d)
    } else {
        parse_toml(existing)
    }
}

/// `s` ending with a newline: as it is when it does, with one added when not.
pub open spec fn newline_ended(s: Seq<char>) -> Seq<char> {
    if s.len() > 0 && s.last() == '\n' { s } else { s.push('\n') }
}

/// `d0` is the document of a config file's text.
pub open spec fn document_of_text(text: Seq<char>, d0: DocumentMut) -> bool {
    forall|p: Seq<Seq<char>>| #[trigger] config_text_value(text, p) == Some(toml_value(d0, p))
}

/// `t` is the text of `d`, the install merged into `d0`, the document of
/// `existing`.
pub open spec fn install_text_via(
    existing: Seq<char>,
    d0: DocumentMut,
    d: DocumentMut,
    t: Seq<char>,
    pid: Seq<char>,
    model: Seq<char>,
    catalog: Seq<char>,
    base_url: Seq<char>,
    env_key: Option<Seq<char>>,
    web_search: Option<Seq<char>>,
) -> bool {
    &&& document_of_text(existing, d0)
    &&& forall|q: Seq<Seq<char>>| #[trigger] toml_value(d, q) == installed_value(d0, q, pid, model, catalog, base_url, env_key, web_search)
    &&& t == newline_ended(rendered_toml(d))
}

/// `t` is the text of `d`, `d0` (the document of `existing`) with
/// `project_key` marked trusted.
pub open spec fn trust_text_via(existing: Seq<char>, d0: DocumentMut, d: DocumentMut, t: Seq<char>, project_key: Seq<char>) -> bool {
    &&& document_of_text(existing, d0)
    &&& trust_written(d0, d, project_key)
    &&& t == newline_ended(rendered_toml(d))
}

/// The Codex config text an install writes: the existing text (blank for no
/// file) with the shim's entries merged in, ending with a newline.
pub fn merged_codex_config(
    existing: &str,
    provider_id: &str,
    model: &str,
    catalog_path: &str,
    base_url: &str,
    env_key: Option<&str>,
    web_search: Option<&str>,
) -> (r: Result<String, IntegrationError>)
    ensures
        config_text_value(existing@, Seq::empty()) is None <==> r matches Err(IntegrationError::InvalidToml),
        config_text_value(existing@, Seq::empty()) is Some ==> merge_outcome(
            match r { Ok(_) => Ok(()), Err(e) => Err(e) },
            provider_id@, env_key is Some, str_opt(web_search),
            config_text_value(existing@, key1("model_providers"@))->0,
            config_text_value(existing@, key2("model_providers"@, provider_id@))->0,
            config_text_value(existing@, key3("model_providers"@, provider_id@, "auth"@))->0),
        r matches Ok(t) ==> t@.len() > 0 && t@.last() == '\n',
        r matches Ok(t) ==> exists|d0: DocumentMut, d: DocumentMut| #[trigger] install_text_via(existing@, d0, d, t@,
            provider_id@, model@, catalog_path@, base_url@, str_opt(env_key), str_opt(web_search)),
{
    let mut doc = match parse_toml_document(existing) {
        Some(d) => d,
        None => return Err(IntegrationError::InvalidToml),
    };
    let ghost d0 = doc;
    match merge_codex_config_document(&mut doc, provider_id, model, catalog_path, base_url, env_key, web_search) {
        Ok(()) => {}
        Err(e) => return Err(e),
    }
    let t = normalize_toml(render_toml(&doc));
    assert(install_text_via(existing@, d0, doc, t@,
        provider_id@, model@, catalog_path@, base_url@, str_opt(env_key), str_opt(web_search)));
    Ok(t)
}

/// Marks a project trusted in the global Codex config:
/// `[projects."<project>"] trust_level = "trusted"`. Every key outside that
/// table keeps its value.
/// What marking `project_key` trusted leaves in `d`, starting from `d0`:
/// `[projects."<project>"] trust_level = "trusted"`, the tables above it,
/// and every other key as it was.
pub open spec fn trust_written(d0: DocumentMut, d: DocumentMut, project_key: Seq<char>) -> bool {
    &&& toml_value(d, Seq::empty()) is Table
    &&& toml_value(d, key1("projects"@)) is Table
    &&& toml_value(d, key2("projects"@, project_key)) is Table
    &&& toml_value(d, key3("projects"@, project_key, "trust_level"@)) == TomlValue::Str("trusted"@)
    &&& forall|q: Seq<Seq<char>>| within(q, key3("projects"@, project_key, "trust_level"@))
        && q != key3("projects"@, project_key, "trust_level"@) ==> #[trigger] toml_value(d, q) is Missing
    &&& forall|q: Seq<Seq<char>>| !(q.len() == 0 || (q.len() == 1 && q[0] == "projects"@)
        || q == key2("projects"@, project_key) || within(q, key3("projects"@, project_key, "trust_level"@)))
        ==> #[trigger] toml_value(d, q) == toml_value(d0, q)
}

pub fn set_project_trust(doc: &mut DocumentMut, project_key: &str) -> (r: Result<(), IntegrationError>)
    requires
        toml_value(*old(doc), Seq::empty()) is Table,
    ensures
        blocks_table(toml_value(*old(doc), key1("projects"@))) ==> (r matches Err(IntegrationError::NotATable(p)) && p@ == "projects"@),
        !blocks_table(toml_value(*old(doc), key1("projects"@))) && blocks_table(toml_value(*old(doc), key2("projects"@, project_key@)))
            ==> (r matches Err(IntegrationError::NotATable(p)) && p@ == "projects.<path>"@),
        !blocks_table(toml_value(*old(doc), key1("projects"@))) && !blocks_table(toml_value(*old(doc), key2("projects"@, project_key@)))
            ==> r is Ok,
        r is Ok ==> trust_written(*old(doc), *final(doc), project_key@),
{
    let projects_item = toml_lookup(doc, &path1("projects"));
    let entry_item = toml_lookup(doc, &path2("projects", project_key));
    match projects_item {
        TomlItem::Table => {}
        TomlItem::Missing => {}
        _ => return Err(IntegrationError::NotATable(owned("projects"))),
    }
    match entry_item {
        TomlItem::Table => {}
        TomlItem::Missing => {}
        _ => return Err(IntegrationError::NotATable(owned("projects.<path>"))),
    }
    let ghost d0 = *doc;
    let tables = path2("projects", project_key);
    let ghost t = path_view(tables@);
    proof {
        assert(t.take(0) =~= Seq::<Seq<char>>::empty());
        assert(t.take(1) =~= key1("projects"@));
        assert(t.take(2) =~= t);
        assert forall|k: int| 0 <= k <= t.len() implies {
            let v = #[trigger] toml_value(d0, t.take(k));
            v is Table || v is Missing
        } by {}
    }
    set_str(doc, &tables, "trust_level", "trusted");
    proof {
        assert(t.push("trust_level"@) =~= key3("projects"@, project_key@, "trust_level"@));
        assert forall|q: Seq<Seq<char>>| !(q.len() == 0 || (q.len() == 1 && q[0] == "projects"@)
            || q == key2("projects"@, project_key@) || within(q, key3("projects"@, project_key@, "trust_level"@)))
            implies #[trigger] toml_value(*doc, q) == toml_value(d0, q) by {
            lemma_within_elementwise(t, q);
            lemma_within_elementwise(q, t.push("trust_level"@));
            if within(t, q) && q.len() == 2 {
                assert(q =~= t);
            }
        }
    }
    Ok(())
}

/// The global Codex config text with a project marked trusted: the existing
/// text (blank for no file), ending with a newline.
pub fn project_trust_document(existing: &str, project_key: &str) -> (r: Result<String, IntegrationError>)
    ensures
        config_text_value(existing@, Seq::empty()) is None <==> r matches Err(IntegrationError::InvalidToml),
        config_text_value(existing@, Seq::empty()) is Some ==> {
            let projects = config_text_value(existing@, key1("projects"@))->0;
            let entry = config_text_value(existing@, key2("projects"@, project_key@))->0;
            &&& blocks_table(projects) ==> (r matches Err(IntegrationError::NotATable(p)) && p@ == "projects"@)
            &&& !blocks_table(projects) && blocks_table(entry) ==> (r matches Err(IntegrationError::NotATable(p)) && p@ == "projects.<path>"@)
            &&& !blocks_table(projects) && !blocks_table(entry) ==> r is Ok
        },
        r matches Ok(t) ==> t@.len() > 0 && t@.last() == '\n',
        r matches Ok(t) ==> exists|d0: DocumentMut, d: DocumentMut| #[trigger] trust_text_via(existing@, d0, d, t@, project_key@),
{
    let mut doc = match parse_toml_document(existing) {
        Some(d) => d,
        None => return Err(IntegrationError::InvalidToml),
    };
    let ghost d0 = doc;
    match set_project_trust(&mut doc, project_key) {
        Ok(()) => {}
        Err(e) => return Err(e),
    }
    let t = normalize_toml(render_toml(&doc));
    assert(trust_text_via(existing@, d0, doc, t@, project_key@));
    Ok(t)
}

} // verus!
