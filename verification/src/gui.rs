//! The logic behind the desktop GUI: the log buffer it polls, how a log event
//! is rendered, the token-series ranges it offers and the defaults it shows.
use vstd::prelude::*;
use std::collections::VecDeque;
use crate::text::{owned, concat2, concat3, str_eq, trim, trimmed, all_white, is_blank, chars_of};
use crate::config::{joined, join_path, opt_view};
use crate::relay::joined_with;
use crate::setup::strings_view;
use crate::metrics::{RuntimeMetricsSnapshot, TokenSeriesSnapshot};
use crate::integration::ShimConfigSummary;

verus! {

/// The most log entries the buffer keeps.
pub const LOG_CAPACITY: usize = 2000;

/// One log line.
#[derive(Debug)]
pub struct LogEntry {
    pub id: u64,
    pub timestamp: String,
    pub level: String,
    pub message: String,
}

/// The log lines since a cursor, and the cursor to ask with next.
#[derive(Debug)]
pub struct LogBatch {
    pub entries: Vec<LogEntry>,
    pub next_cursor: u64,
}

pub struct LogEntryV {
    pub id: u64,
    pub timestamp: Seq<char>,
    pub level: Seq<char>,
    pub message: Seq<char>,
}

pub open spec fn entry_view(e: LogEntry) -> LogEntryV {
    LogEntryV { id: e.id, timestamp: e.timestamp@, level: e.level@, message: e.message@ }
}

pub open spec fn entries_view(v: Seq<LogEntry>) -> Seq<LogEntryV> {
    Seq::new(v.len(), |i: int| entry_view(v[i]))
}

/// The log lines the GUI shows: the last `LOG_CAPACITY` ones, numbered in
/// the order they came.
pub struct LogBuffer {
    next_id: u64,
    entries: VecDeque<LogEntry>,
}

pub struct LogBufferV {
    pub next_id: u64,
    pub entries: Seq<LogEntryV>,
}

impl View for LogBuffer {
    type V = LogBufferV;

    closed spec fn view(&self) -> LogBufferV {
        LogBufferV { next_id: self.next_id, entries: entries_view(self.entries@) }
    }
}

impl LogBufferV {
    /// At most `LOG_CAPACITY` entries, numbered consecutively up to `next_id - 1`.
    pub open spec fn wf(self) -> bool {
        &&& self.entries.len() <= LOG_CAPACITY
        &&& self.entries.len() <= self.next_id
        &&& forall|i: int| 0 <= i < self.entries.len()
            ==> (#[trigger] self.entries[i]).id == self.next_id - self.entries.len() + i
    }

    /// The entries numbered `cursor` or later, in order.
    pub open spec fn since(self, cursor: u64) -> Seq<LogEntryV> {
        self.entries.filter(|e: LogEntryV| e.id >= cursor)
    }
}

/// The entries after a push: the new one last, the oldest dropped beyond capacity.
pub open spec fn pushed(entries: Seq<LogEntryV>, e: LogEntryV) -> Seq<LogEntryV> {
    let all = entries.push(e);
    if all.len() > LOG_CAPACITY { all.drop_first() } else { all }
}

fn clone_entry(e: &LogEntry) -> (r: LogEntry)
    ensures
        entry_view(r) == entry_view(*e),
{
    LogEntry { id: e.id, timestamp: e.timestamp.clone(), level: e.level.clone(), message: e.message.clone() }
}

impl LogBuffer {
    /// An empty buffer.
    pub fn new() -> (b: Self)
        ensures
            b@.next_id == 0,
            b@.entries.len() == 0,
            b@.wf(),
    {
        let b = LogBuffer { next_id: 0, entries: VecDeque::new() };
        assert(b@.entries =~= Seq::<LogEntryV>::empty());
        b
    }

    /// Appends a line, numbered `next_id`, dropping the oldest beyond capacity.
    pub fn push(&mut self, level: String, message: String, timestamp: String)
        requires
            old(self)@.wf(),
            old(self)@.next_id < u64::MAX,
        ensures
            final(self)@.wf(),
            final(self)@.next_id == old(self)@.next_id + 1,
            final(self)@.entries == pushed(old(self)@.entries,
                LogEntryV { id: old(self)@.next_id, timestamp: timestamp@, level: level@, message: message@ }),
    {
        let ghost before = self@.entries;
        let id = self.next_id;
        let e = LogEntry { id, timestamp, level, message };
        let ghost ev = entry_view(e);
        self.next_id = self.next_id + 1;
        self.entries.push_back(e);
        assert(entries_view(self.entries@) =~= before.push(ev));
        if self.entries.len() > LOG_CAPACITY {
            let _ = self.entries.pop_front();
            assert(entries_view(self.entries@) =~= before.push(ev).drop_first());
        }
    }

    /// The entries numbered `cursor` (0 when none is given) or later, and the
    /// number the next entry will get.
    pub fn since(&self, cursor: Option<u64>) -> (r: LogBatch)
        requires
            self@.wf(),
        ensures
            entries_view(r.entries@) == self@.since(match cursor { Some(c) => c, None => 0 }),
            r.next_cursor == self@.next_id,
    {
        let c: u64 = match cursor { Some(c) => c, None => 0 };
        let ghost all = self@.entries;
        let ghost p = |e: LogEntryV| e.id >= c;
        let mut out: Vec<LogEntry> = Vec::new();
        let mut i: usize = 0;
        while i < self.entries.len()
            invariant
                i <= self.entries@.len(),
                all == entries_view(self.entries@),
                p == (|e: LogEntryV| e.id >= c),
                entries_view(out@) == all.take(i as int).filter(p),
            decreases self.entries@.len() - i,
        {
            let e = &self.entries[i];
            assert(all.take(i as int + 1).drop_last() =~= all.take(i as int));
            assert(all.take(i as int + 1).last() == entry_view(*e));
            let ghost before = entries_view(out@);
            if e.id >= c {
                let copy = clone_entry(e);
                out.push(copy);
                assert(entries_view(out@) =~= before.push(entry_view(*e)));
            }
            proof {
                reveal(Seq::filter);
            }
            i = i + 1;
        }
        assert(all.take(all.len() as int) =~= all);
        LogBatch { entries: out, next_cursor: self.next_id }
    }
}

/// What a push writes, a read from the old cursor gives back: after pushing a
/// line into a buffer, asking for the lines since the number it got returns
/// exactly that line.
pub proof fn law_push_then_since(b: LogBufferV, e: LogEntryV)
    requires
        b.wf(),
        e.id == b.next_id,
    ensures
        pushed(b.entries, e).filter(|x: LogEntryV| x.id >= b.next_id) == seq![e],
{
    let all = b.entries.push(e);
    let p = |x: LogEntryV| x.id >= b.next_id;
    assert forall|k: int| 0 <= k <= b.entries.len() implies #[trigger] b.entries.take(k).filter(p) =~= Seq::<LogEntryV>::empty() by {
        lemma_filter_none(b, k, b.next_id);
    }
    assert(b.entries.take(b.entries.len() as int) =~= b.entries);
    assert(b.entries.take(b.entries.len() as int).filter(p) =~= Seq::<LogEntryV>::empty());
    assert(b.entries.filter(p) =~= Seq::<LogEntryV>::empty());
    reveal(Seq::filter);
    assert(all.drop_last() =~= b.entries);
    assert(all.last() == e);
    assert(p(e));
    assert(all.filter(p) == all.drop_last().filter(p).push(e));
    assert(all.filter(p) =~= seq![e]);
    if all.len() > LOG_CAPACITY {
        lemma_filter_drop_first(all, p);
    }
}

proof fn lemma_filter_none(b: LogBufferV, k: int, c: u64)
    requires
        b.wf(),
        0 <= k <= b.entries.len(),
        c >= b.next_id,
    ensures
        b.entries.take(k).filter(|x: LogEntryV| x.id >= c) =~= Seq::<LogEntryV>::empty(),
    decreases k,
{
    reveal(Seq::filter);
    if k > 0 {
        lemma_filter_none(b, k - 1, c);
        assert(b.entries.take(k).drop_last() =~= b.entries.take(k - 1));
        assert(b.entries.take(k).last() == b.entries[k - 1]);
    }
}

proof fn lemma_filter_drop_first(s: Seq<LogEntryV>, p: spec_fn(LogEntryV) -> bool)
    requires
        s.len() > 0,
        !p(s[0]),
    ensures
        s.drop_first().filter(p) == s.filter(p),
    decreases s.len(),
{
    reveal(Seq::filter);
    if s.len() > 1 {
        lemma_filter_drop_first(s.drop_last(), p);
        assert(s.drop_last().drop_first() =~= s.drop_first().drop_last());
    } else {
        assert(s.drop_first() =~= Seq::<LogEntryV>::empty());
        assert(s.drop_last() =~= Seq::<LogEntryV>::empty());
    }
}

// ---------------------------------------------------------------------------
// Log events.

/// The fields of a log event: its message, if it has one, and the other
/// fields as `name=value`, in the order they were recorded.
#[derive(Debug)]
pub struct EventVisitor {
    pub message: Option<String>,
    pub fields: Vec<(String, String)>,
}

pub open spec fn field_texts(fields: Seq<(String, String)>) -> Seq<Seq<char>> {
    Seq::new(fields.len(), |i: int| fields[i].0@ + "="@ + fields[i].1@)
}

/// How an event is shown: its message, then its other fields, space-separated.
pub open spec fn rendered_event(message: Option<Seq<char>>, fields: Seq<(String, String)>) -> Seq<char> {
    match message {
        Some(m) => if fields.len() == 0 { m } else { m + " "@ + joined_with(field_texts(fields), " "@) },
        None => joined_with(field_texts(fields), " "@),
    }
}

impl EventVisitor {
    /// A visitor that has recorded nothing.
    pub fn new() -> (v: Self)
        ensures
            v.message is None,
            v.fields@.len() == 0,
    {
        EventVisitor { message: None, fields: Vec::new() }
    }

    /// Records one field: `message` becomes the message, any other name is kept as a field.
    pub fn record_value(&mut self, name: &str, value: String)
        ensures
            name@ == "message"@ ==> opt_view_string(final(self).message) == Some(value@)
                && final(self).fields@ == old(self).fields@,
            name@ != "message"@ ==> final(self).message == old(self).message
                && field_texts(final(self).fields@) == field_texts(old(self).fields@).push(name@ + "="@ + value@),
    {
        if str_eq(name, "message") {
            self.message = Some(value);
        } else {
            let ghost before = field_texts(self.fields@);
            self.fields.push((owned(name), value));
            assert(field_texts(self.fields@) =~= before.push(name@ + "="@ + value@));
        }
    }

    /// The event as one log line.
    pub fn render(self) -> (r: String)
        ensures
            r@ == rendered_event(opt_view_string(self.message), self.fields@),
    {
        let mut texts: Vec<String> = Vec::new();
        let mut i: usize = 0;
        while i < self.fields.len()
            invariant
                i <= self.fields@.len(),
                strings_view(texts@) == field_texts(self.fields@).take(i as int),
            decreases self.fields@.len() - i,
        {
            let t = concat3(self.fields[i].0.as_str(), "=", self.fields[i].1.as_str());
            crate::setup::push_string(&mut texts, t);
            i = i + 1;
            assert(strings_view(texts@) =~= field_texts(self.fields@).take(i as int));
        }
        assert(field_texts(self.fields@).take(self.fields@.len() as int) =~= field_texts(self.fields@));
        let extras = crate::setup::join_strings(&texts, " ");
        match self.message {
            Some(m) => {
                if self.fields.len() == 0 {
                    m
                } else {
                    concat3(m.as_str(), " ", extras.as_str())
                }
            }
            None => extras,
        }
    }
}

pub open spec fn opt_view_string(o: Option<String>) -> Option<Seq<char>> {
    match o {
        Some(s) => Some(s@),
        None => None,
    }
}

// ---------------------------------------------------------------------------
// Small decisions.

/// The token-series ranges the GUI offers: 15 minutes, an hour or a day; an
/// hour for anything else.
pub fn normalize_range(range_minutes: u32) -> (r: u32)
    ensures
        r == if range_minutes == 15 || range_minutes == 60 || range_minutes == 1440 { range_minutes } else { 60 },
{
    if range_minutes == 15 || range_minutes == 60 || range_minutes == 1440 {
        range_minutes
    } else {
        60
    }
}

/// A path typed into the GUI, trimmed; nothing when it is blank.
pub fn non_empty_path(value: &str) -> (r: Option<String>)
    ensures
        match r {
            Some(p) => p@ == trimmed(value@) && p@.len() > 0,
            None => trimmed(value@).len() == 0,
        },
{
    let t = trim(value);
    if t.unicode_len() == 0 { None } else { Some(t) }
}

/// Why native file dialogs are off, when they are: under WSL they can hang.
pub fn browse_unavailable_message(is_wsl: bool) -> (r: Option<String>)
    ensures
        match r {
            Some(m) => is_wsl && m@ == "Native Browse dialogs are disabled under WSL because they can hang the GUI. Paste the path manually instead."@,
            None => !is_wsl,
        },
{
    if is_wsl {
        Some(owned("Native Browse dialogs are disabled under WSL because they can hang the GUI. Paste the path manually instead."))
    } else {
        None
    }
}

pub open spec fn ascii_lower(c: char) -> char {
    if 'A' <= c && c <= 'Z' { ((c as u32) + 32) as char } else { c }
}

pub open spec fn lowered(s: Seq<char>) -> Seq<char> {
    Seq::new(s.len(), |i: int| ascii_lower(s[i]))
}

fn ascii_lower_exec(c: char) -> (r: char)
    ensures
        r == ascii_lower(c),
{
    if 'A' <= c && c <= 'Z' {
        let code: u8 = ((c as u32) + 32) as u8;
        code as char
    } else {
        c
    }
}

/// Whether a kernel version string names WSL: it mentions `microsoft` or
/// `wsl`, in any ASCII case.
pub fn version_mentions_wsl(version: &str) -> (r: bool)
    ensures
        r == (crate::text::has_substring(lowered(version@), "microsoft"@) || crate::text::has_substring(lowered(version@), "wsl"@)),
{
    let cs = chars_of(version);
    let mut lower = String::new();
    let mut i: usize = 0;
    while i < cs.len()
        invariant
            i <= cs@.len(),
            cs@ == version@,
            lower@ == lowered(version@).take(i as int),
        decreases cs@.len() - i,
    {
        crate::text::push_char(&mut lower, ascii_lower_exec(cs[i]));
        i = i + 1;
        assert(lower@ =~= lowered(version@).take(i as int));
    }
    assert(lowered(version@).take(cs@.len() as int) =~= lowered(version@));
    crate::text::str_contains(lower.as_str(), "microsoft") || crate::text::str_contains(lower.as_str(), "wsl")
}

/// What the GUI shows before a config is opened.
#[derive(Debug)]
pub struct DefaultsResponse {
    pub default_config_path: Option<String>,
    pub default_config_exists: bool,
    pub default_codex_home: Option<String>,
    pub current_directory: Option<String>,
    pub starter_config_text: String,
    pub browse_supported: bool,
    pub browse_message: Option<String>,
}

/// The GUI defaults: the default config path and Codex home under `home`,
/// whether that config exists, the working directory, the starter config and
/// whether file dialogs may be used.
pub fn build_defaults_response(
    home: Option<&str>,
    current_directory: Option<&str>,
    default_config_exists: bool,
    starter_config_text: &str,
    is_wsl: bool,
) -> (r: DefaultsResponse)
    ensures
        opt_view_string(r.default_config_path) == match home {
            Some(h) => Some(joined(joined(h@, ".codex-shim"@), "config.yaml"@)),
            None => None,
        },
        r.default_config_exists == (home is Some && default_config_exists),
        opt_view_string(r.default_codex_home) == match home {
            Some(h) => Some(joined(h@, ".codex"@)),
            None => None,
        },
        opt_view_string(r.current_directory) == opt_view(current_directory),
        r.starter_config_text@ == starter_config_text@,
        r.browse_supported == !is_wsl,
        (r.browse_message is Some) == is_wsl,
{
    let default_config_path = match home {
        Some(h) => {
            let dir = join_path(h, ".codex-shim");
            Some(join_path(dir.as_str(), "config.yaml"))
        }
        None => None,
    };
    let browse_message = browse_unavailable_message(is_wsl);
    DefaultsResponse {
        default_config_path,
        default_config_exists: home.is_some() && default_config_exists,
        default_codex_home: match home {
            Some(h) => Some(join_path(h, ".codex")),
            None => None,
        },
        current_directory: match current_directory {
            Some(d) => Some(owned(d)),
            None => None,
        },
        starter_config_text: owned(starter_config_text),
        browse_supported: browse_message.is_none(),
        browse_message,
    }
}

// ---------------------------------------------------------------------------
// The runtime panel.

/// What the runtime panel shows: the running shim's configuration, its
/// counters and its token series.
#[derive(Debug)]
pub struct RuntimeView {
    pub running: bool,
    pub listen: String,
    pub provider: String,
    pub endpoint_mode: String,
    pub upstream_base_url: String,
    pub model: String,
    pub state_backend: String,
    pub uptime_seconds: u64,
    pub request_count: u64,
    pub completed_request_count: u64,
    pub error_count: u64,
    pub store_size: usize,
    pub last_error: Option<String>,
    pub token_series: TokenSeriesSnapshot,
}

/// The panel of a running shim, from its configuration summary, endpoint
/// mode, counters and token series.
pub fn build_runtime_view(
    running: bool,
    summary: &ShimConfigSummary,
    endpoint_mode: &str,
    metrics: RuntimeMetricsSnapshot,
    token_series: TokenSeriesSnapshot,
) -> (r: RuntimeView)
    ensures
        r.running == running,
        r.listen@ == summary.listen@,
        r.provider@ == summary.provider_kind@,
        r.endpoint_mode@ == endpoint_mode@,
        r.upstream_base_url@ == summary.upstream_base_url@,
        r.model@ == summary.model@,
        r.state_backend@ == summary.state_backend@,
        r.uptime_seconds == metrics.uptime_seconds,
        r.request_count == metrics.request_count,
        r.completed_request_count == metrics.completed_request_count,
        r.error_count == metrics.error_count,
        r.store_size == metrics.store_size,
        r.last_error == metrics.last_error,
        r.token_series == token_series,
{
    RuntimeView {
        running,
        listen: summary.listen.clone(),
        provider: summary.provider_kind.clone(),
        endpoint_mode: owned(endpoint_mode),
        upstream_base_url: summary.upstream_base_url.clone(),
        model: summary.model.clone(),
        state_backend: summary.state_backend.clone(),
        uptime_seconds: metrics.uptime_seconds,
        request_count: metrics.request_count,
        completed_request_count: metrics.completed_request_count,
        error_count: metrics.error_count,
        store_size: metrics.store_size,
        last_error: metrics.last_error,
        token_series,
    }
}

/// The panel when no shim runs: empty fields, zero counters, and the given
/// (empty) token series.
pub fn idle_runtime_view(token_series: TokenSeriesSnapshot) -> (r: RuntimeView)
    ensures
        !r.running,
        r.listen@ == Seq::<char>::empty(),
        r.provider@ == Seq::<char>::empty(),
        r.endpoint_mode@ == Seq::<char>::empty(),
        r.upstream_base_url@ == Seq::<char>::empty(),
        r.model@ == Seq::<char>::empty(),
        r.state_backend@ == Seq::<char>::empty(),
        r.uptime_seconds == 0,
        r.request_count == 0,
        r.completed_request_count == 0,
        r.error_count == 0,
        r.store_size == 0,
        r.last_error is None,
        r.token_series == token_series,
{
    RuntimeView {
        running: false,
        listen: String::new(),
        provider: String::new(),
        endpoint_mode: String::new(),
        upstream_base_url: String::new(),
        model: String::new(),
        state_backend: String::new(),
        uptime_seconds: 0,
        request_count: 0,
        completed_request_count: 0,
        error_count: 0,
        store_size: 0,
        last_error: None,
        token_series,
    }
}

} // verus!
