//! Runtime metrics: request counters and per-minute token usage buckets.
use vstd::prelude::*;
use std::collections::VecDeque;

verus! {

/// The number of per-minute buckets kept: one day plus a small margin.
pub const MAX_BUCKETS: usize = 1448;

/// Token usage reported for one completed request.
#[derive(Debug, Clone, Copy, PartialEq, Eq, Structural)]
pub struct Usage {
    pub input_tokens: u32,
    pub output_tokens: u32,
    pub total_tokens: u32,
}

/// One minute of the token series.
#[derive(Debug, Clone, Copy, PartialEq, Eq, Structural)]
pub struct TokenBucketSnapshot {
    pub minute_start_unix: i64,
    pub input_tokens: u64,
    pub output_tokens: u64,
    pub total_tokens: u64,
    pub completed_requests: u64,
    pub usage_requests: u64,
}

/// A window of per-minute token usage ending at the current minute.
#[derive(Debug, Clone)]
pub struct TokenSeriesSnapshot {
    pub range_minutes: u32,
    pub partial_usage: bool,
    pub buckets: Vec<TokenBucketSnapshot>,
}

/// Request counters at one instant.
#[derive(Debug, Clone)]
pub struct RuntimeMetricsSnapshot {
    pub uptime_seconds: u64,
    pub request_count: u64,
    pub completed_request_count: u64,
    pub error_count: u64,
    pub store_size: usize,
    pub last_error: Option<String>,
}

/// Runtime counters and the per-minute token buckets, oldest first.
pub struct RuntimeMetrics {
    pub started_at_unix: i64,
    pub request_count: u64,
    pub completed_request_count: u64,
    pub error_count: u64,
    pub store_size: usize,
    pub last_error: Option<String>,
    pub buckets: VecDeque<TokenBucketSnapshot>,
}

/// `unix_seconds` rounded down to the start of its minute.
pub open spec fn minute_of(unix_seconds: int) -> int {
    unix_seconds - unix_seconds % 60
}

/// An empty bucket for the minute starting at `minute`.
pub open spec fn empty_bucket(minute: i64) -> TokenBucketSnapshot {
    TokenBucketSnapshot {
        minute_start_unix: minute,
        input_tokens: 0,
        output_tokens: 0,
        total_tokens: 0,
        completed_requests: 0,
        usage_requests: 0,
    }
}

/// Bucket minutes strictly increase from front to back.
pub open spec fn buckets_sorted(b: Seq<TokenBucketSnapshot>) -> bool {
    forall|i: int, j: int| 0 <= i < j < b.len() ==> b[i].minute_start_unix < b[j].minute_start_unix
}

/// `b` with its oldest buckets dropped so that at most `MAX_BUCKETS` remain.
pub open spec fn trimmed_buckets(b: Seq<TokenBucketSnapshot>) -> Seq<TokenBucketSnapshot> {
    if b.len() > MAX_BUCKETS {
        b.skip(b.len() - MAX_BUCKETS)
    } else {
        b
    }
}

/// `bucket` after one more completed request with the given usage.
pub open spec fn bucket_with_completion(bucket: TokenBucketSnapshot, usage: Option<Usage>) -> TokenBucketSnapshot {
    match usage {
        Some(u) => TokenBucketSnapshot {
            completed_requests: (bucket.completed_requests + 1) as u64,
            input_tokens: (bucket.input_tokens + u.input_tokens) as u64,
            output_tokens: (bucket.output_tokens + u.output_tokens) as u64,
            total_tokens: (bucket.total_tokens + u.total_tokens) as u64,
            usage_requests: (bucket.usage_requests + 1) as u64,
            ..bucket
        },
        None => TokenBucketSnapshot { completed_requests: (bucket.completed_requests + 1) as u64, ..bucket },
    }
}

/// Whether adding the completion to `bucket` stays within `u64`.
pub open spec fn bucket_has_room(bucket: TokenBucketSnapshot, usage: Option<Usage>) -> bool {
    &&& bucket.completed_requests < u64::MAX
    &&& match usage {
        Some(u) => {
            &&& bucket.input_tokens + u.input_tokens <= u64::MAX
            &&& bucket.output_tokens + u.output_tokens <= u64::MAX
            &&& bucket.total_tokens + u.total_tokens <= u64::MAX
            &&& bucket.usage_requests < u64::MAX
        },
        None => true,
    }
}

/// The buckets after recording a completion at `unix_seconds`, before trimming:
/// the newest bucket is reused when it covers the same minute, otherwise a new
/// bucket is appended.
pub open spec fn buckets_after_completion(
    b: Seq<TokenBucketSnapshot>,
    usage: Option<Usage>,
    unix_seconds: i64,
) -> Seq<TokenBucketSnapshot> {
    let m = minute_of(unix_seconds as int);
    if b.len() > 0 && b.last().minute_start_unix == m {
        b.update(b.len() - 1, bucket_with_completion(b.last(), usage))
    } else {
        b.push(bucket_with_completion(empty_bucket(m as i64), usage))
    }
}

/// Whether recording a completion at `unix_seconds` stays within `u64`.
pub open spec fn completion_has_room(b: Seq<TokenBucketSnapshot>, usage: Option<Usage>, unix_seconds: i64) -> bool {
    let m = minute_of(unix_seconds as int);
    &&& m >= i64::MIN
    &&& if b.len() > 0 && b.last().minute_start_unix == m {
        bucket_has_room(b.last(), usage)
    } else {
        bucket_has_room(empty_bucket(m as i64), usage)
    }
}

/// The first minute of a series of `range_minutes` minutes ending at the
/// minute of `now` (for no minutes, the minute after `now`'s).
pub open spec fn series_first_minute(range_minutes: u32, now: i64) -> int {
    minute_of(now as int) - (range_minutes as int - 1) * 60
}

/// The number of buckets in a series: one per minute from the first to the
/// current minute, none for a range of 0.
pub open spec fn series_len(range_minutes: u32) -> nat {
    range_minutes as nat
}

/// The stored bucket for minute `m`, if any.
pub open spec fn stored_bucket(b: Seq<TokenBucketSnapshot>, m: int) -> Option<TokenBucketSnapshot> {
    if exists|i: int| 0 <= i < b.len() && b[i].minute_start_unix == m {
        Some(b[choose|i: int| 0 <= i < b.len() && b[i].minute_start_unix == m])
    } else {
        None
    }
}

/// The bucket shown for minute `m`: the stored one, or an empty one.
pub open spec fn shown_bucket(b: Seq<TokenBucketSnapshot>, m: int) -> TokenBucketSnapshot {
    match stored_bucket(b, m) {
        Some(x) => x,
        None => empty_bucket(m as i64),
    }
}

/// Whether the series requested at `now` fits in `i64` arithmetic.
pub open spec fn series_in_range(range_minutes: u32, now: i64) -> bool {
    &&& series_first_minute(range_minutes, now) >= i64::MIN
    &&& minute_of(now as int) >= i64::MIN
    &&& minute_of(now as int) + 60 <= i64::MAX
}

/// What a series shows of the buckets `b`, asked at `now`: `range_minutes`
/// consecutive minutes ending at the minute of `now`, each the stored bucket
/// of its minute or an empty one, and whether some shown minute had
/// completions without usage.
pub open spec fn series_shown(b: Seq<TokenBucketSnapshot>, s: TokenSeriesSnapshot, range_minutes: u32, now: i64) -> bool {
    &&& s.range_minutes == range_minutes
    &&& s.buckets@.len() == series_len(range_minutes)
    &&& forall|k: int| 0 <= k < s.buckets@.len() ==>
        (#[trigger] s.buckets@[k]).minute_start_unix == series_first_minute(range_minutes, now) + 60 * k
    &&& forall|k: int| 0 <= k < s.buckets@.len() ==>
        #[trigger] s.buckets@[k] == empty_bucket(s.buckets@[k].minute_start_unix) || b.contains(s.buckets@[k])
    &&& buckets_sorted(b) ==> forall|k: int| 0 <= k < s.buckets@.len() ==>
        #[trigger] s.buckets@[k] == shown_bucket(b, s.buckets@[k].minute_start_unix as int)
    &&& s.partial_usage == exists|k: int| 0 <= k < s.buckets@.len()
        && (#[trigger] s.buckets@[k]).completed_requests > s.buckets@[k].usage_requests
}

/// The earliest and latest clock readings for which any series fits in `i64`
/// arithmetic; every reading of a real clock lies between them.
pub const SERIES_SAFE_LOW: i64 = -9223371779156738048;
pub const SERIES_SAFE_HIGH: i64 = 9223372036854775687;

/// A clock reading moved into `[SERIES_SAFE_LOW, SERIES_SAFE_HIGH]`, where
/// the per-minute arithmetic of any series and any completion fits in `i64`.
/// Readings in that range are kept.
pub fn clamp_clock_reading(now: i64) -> (r: i64)
    ensures
        SERIES_SAFE_LOW <= r <= SERIES_SAFE_HIGH,
        SERIES_SAFE_LOW <= now <= SERIES_SAFE_HIGH ==> r == now,
        now < SERIES_SAFE_LOW ==> r == SERIES_SAFE_LOW,
        now > SERIES_SAFE_HIGH ==> r == SERIES_SAFE_HIGH,
{
    if now < SERIES_SAFE_LOW {
        SERIES_SAFE_LOW
    } else if now > SERIES_SAFE_HIGH {
        SERIES_SAFE_HIGH
    } else {
        now
    }
}

/// In the safe range every series and every minute fits in `i64`.
pub proof fn lemma_safe_reading(range_minutes: u32, now: i64)
    requires
        SERIES_SAFE_LOW <= now <= SERIES_SAFE_HIGH,
    ensures
        series_in_range(range_minutes, now),
        minute_of(now as int) >= i64::MIN,
{
    let m = minute_of(now as int);
    assert(0 <= (now as int) % 60 < 60);
    assert(now - 59 <= m <= now);
}

/// The request count after one more received request.
pub open spec fn saturating_uptime(now: i64, started: i64) -> u64 {
    if now <= started {
        0
    } else if now - started > i64::MAX {
        i64::MAX as u64
    } else {
        (now - started) as u64
    }
}

/// At most `MAX_BUCKETS` buckets are ever kept after trimming.
pub proof fn lemma_trimmed_bounded(b: Seq<TokenBucketSnapshot>)
    ensures
        trimmed_buckets(b).len() <= MAX_BUCKETS,
        trimmed_buckets(b).len() <= b.len(),
{
}

/// Completions recorded in non-decreasing time keep the buckets ordered by
/// minute, one bucket per minute, also after trimming.
pub proof fn lemma_completion_keeps_sorted(b: Seq<TokenBucketSnapshot>, usage: Option<Usage>, t: i64)
    requires
        buckets_sorted(b),
        b.len() > 0 ==> b.last().minute_start_unix <= minute_of(t as int),
        minute_of(t as int) >= i64::MIN,
    ensures
        buckets_sorted(trimmed_buckets(buckets_after_completion(b, usage, t))),
{
    let a = buckets_after_completion(b, usage, t);
    assert(buckets_sorted(a));
    lemma_trim_keeps_sorted(a);
}

/// Dropping the oldest buckets keeps them ordered by minute.
pub proof fn lemma_trim_keeps_sorted(a: Seq<TokenBucketSnapshot>)
    requires
        buckets_sorted(a),
    ensures
        buckets_sorted(trimmed_buckets(a)),
{
    if a.len() > MAX_BUCKETS {
        let tr = a.skip(a.len() - MAX_BUCKETS);
        assert forall|i: int, j: int| 0 <= i < j < tr.len() implies tr[i].minute_start_unix < tr[j].minute_start_unix by {
            assert(tr[i] == a[i + a.len() - MAX_BUCKETS]);
            assert(tr[j] == a[j + a.len() - MAX_BUCKETS]);
        }
    }
}

/// The timestamp of a clock reading in whole seconds since the Unix epoch;
/// zero for a reading before the epoch.
pub fn seconds_or_zero(reading: Option<u64>) -> (r: i64)
    ensures
        r == match reading {
            Some(secs) => secs as i64,
            None => 0i64,
        },
{
    match reading {
        Some(secs) => secs as i64,
        None => 0,
    }
}

/// Reads the system clock in whole seconds since the Unix epoch (zero when
/// the clock reads before the epoch). What it reads is the clock's.
pub(crate) fn current_unix_seconds() -> (r: i64) {
    seconds_or_zero(crate::clock::unix_seconds_now())
}

/// `unix_seconds` rounded down to the start of its minute.
pub fn floor_to_minute(unix_seconds: i64) -> (r: i64)
    requires
        minute_of(unix_seconds as int) >= i64::MIN,
    ensures
        r == minute_of(unix_seconds as int),
{
    let rem = unix_seconds.checked_rem_euclid(60).unwrap();
    unix_seconds - rem
}

/// Drops the oldest buckets until at most `MAX_BUCKETS` remain.
pub fn trim_old_buckets(buckets: &mut VecDeque<TokenBucketSnapshot>)
    ensures
        final(buckets)@ == trimmed_buckets(old(buckets)@),
{
    let ghost orig = buckets@;
    while buckets.len() > MAX_BUCKETS
        invariant
            orig.len() >= buckets@.len(),
            buckets@ == orig.skip(orig.len() - buckets@.len()),
            trimmed_buckets(orig) == trimmed_buckets(buckets@),
        decreases buckets@.len(),
    {
        let ghost before = buckets@;
        buckets.pop_front();
        assert(buckets@ =~= orig.skip(orig.len() - buckets@.len()));
        assert(trimmed_buckets(before) =~= trimmed_buckets(buckets@));
    }
}

/// Adds one completed request, with optional usage, to the bucket for the
/// minute of `unix_seconds`, creating it when the newest bucket is older.
pub fn ensure_bucket(buckets: &mut VecDeque<TokenBucketSnapshot>, usage: Option<Usage>, unix_seconds: i64)
    requires
        completion_has_room(old(buckets)@, usage, unix_seconds),
    ensures
        final(buckets)@ == buckets_after_completion(old(buckets)@, usage, unix_seconds),
{
    let minute_start_unix = floor_to_minute(unix_seconds);
    let n = buckets.len();
    let reuse = n > 0 && buckets[n - 1].minute_start_unix == minute_start_unix;
    let mut bucket = if reuse {
        buckets.pop_back().unwrap()
    } else {
        TokenBucketSnapshot {
            minute_start_unix,
            input_tokens: 0,
            output_tokens: 0,
            total_tokens: 0,
            completed_requests: 0,
            usage_requests: 0,
        }
    };
    bucket.completed_requests = bucket.completed_requests + 1;
    if let Some(u) = usage {
        bucket.input_tokens = bucket.input_tokens + u.input_tokens as u64;
        bucket.output_tokens = bucket.output_tokens + u.output_tokens as u64;
        bucket.total_tokens = bucket.total_tokens + u.total_tokens as u64;
        bucket.usage_requests = bucket.usage_requests + 1;
    }
    buckets.push_back(bucket);
    assert(buckets@ =~= buckets_after_completion(old(buckets)@, usage, unix_seconds));
}

impl RuntimeMetrics {
    /// A collector started at `started_at_unix` with no requests seen.
    pub fn new_at(started_at_unix: i64) -> (m: Self)
        ensures
            m.started_at_unix == started_at_unix,
            m.request_count == 0,
            m.completed_request_count == 0,
            m.error_count == 0,
            m.store_size == 0,
            m.last_error is None,
            m.buckets@.len() == 0,
    {
        RuntimeMetrics {
            started_at_unix,
            request_count: 0,
            completed_request_count: 0,
            error_count: 0,
            store_size: 0,
            last_error: None,
            buckets: VecDeque::new(),
        }
    }

    /// A collector started now with no requests seen.
    pub fn new() -> (m: Self)
        ensures
            m.request_count == 0,
            m.completed_request_count == 0,
            m.error_count == 0,
            m.store_size == 0,
            m.last_error is None,
            m.buckets@.len() == 0,
    {
        Self::new_at(current_unix_seconds())
    }

    /// Counts one received request.
    pub fn record_request_received(&mut self)
        requires
            old(self).request_count < u64::MAX,
        ensures
            final(self).request_count == old(self).request_count + 1,
            final(self).completed_request_count == old(self).completed_request_count,
            final(self).error_count == old(self).error_count,
            final(self).store_size == old(self).store_size,
            final(self).last_error == old(self).last_error,
            final(self).started_at_unix == old(self).started_at_unix,
            final(self).buckets@ == old(self).buckets@,
    {
        self.request_count = self.request_count + 1;
    }

    /// Counts one failed request and remembers its message.
    pub fn record_request_error(&mut self, message: String)
        requires
            old(self).error_count < u64::MAX,
        ensures
            final(self).error_count == old(self).error_count + 1,
            final(self).last_error == Some(message),
            final(self).request_count == old(self).request_count,
            final(self).completed_request_count == old(self).completed_request_count,
            final(self).store_size == old(self).store_size,
            final(self).started_at_unix == old(self).started_at_unix,
            final(self).buckets@ == old(self).buckets@,
    {
        self.error_count = self.error_count + 1;
        self.last_error = Some(message);
    }

    /// Counts one completed request at `unix_seconds`, adding its usage to the
    /// bucket of that minute, then drops buckets beyond `MAX_BUCKETS`.
    pub fn record_request_completed_at(&mut self, usage: Option<Usage>, unix_seconds: i64)
        requires
            old(self).completed_request_count < u64::MAX,
            completion_has_room(old(self).buckets@, usage, unix_seconds),
        ensures
            final(self).completed_request_count == old(self).completed_request_count + 1,
            final(self).buckets@ == trimmed_buckets(
                buckets_after_completion(old(self).buckets@, usage, unix_seconds),
            ),
            final(self).request_count == old(self).request_count,
            final(self).error_count == old(self).error_count,
            final(self).store_size == old(self).store_size,
            final(self).last_error == old(self).last_error,
            final(self).started_at_unix == old(self).started_at_unix,
            buckets_sorted(old(self).buckets@) && (old(self).buckets@.len() > 0
                ==> old(self).buckets@.last().minute_start_unix <= minute_of(unix_seconds as int))
                ==> buckets_sorted(final(self).buckets@),
    {
        proof {
            if buckets_sorted(self.buckets@) && (self.buckets@.len() > 0
                ==> self.buckets@.last().minute_start_unix <= minute_of(unix_seconds as int)) {
                lemma_completion_keeps_sorted(self.buckets@, usage, unix_seconds);
            }
        }
        self.completed_request_count = self.completed_request_count + 1;
        ensure_bucket(&mut self.buckets, usage, unix_seconds);
        trim_old_buckets(&mut self.buckets);
    }

    /// Counts one completed request now (at the clock's reading, kept within
    /// `clamp_clock_reading`'s range). Whether it lands in the newest bucket
    /// depends on the clock; the newest bucket must have room for it.
    pub fn record_request_completed(&mut self, usage: Option<Usage>)
        requires
            old(self).completed_request_count < u64::MAX,
            old(self).buckets@.len() > 0 ==> bucket_has_room(old(self).buckets@.last(), usage),
        ensures
            final(self).completed_request_count == old(self).completed_request_count + 1,
            exists|t: i64|
                final(self).buckets@ == trimmed_buckets(
                    #[trigger] buckets_after_completion(old(self).buckets@, usage, t),
                ),
            final(self).request_count == old(self).request_count,
            final(self).error_count == old(self).error_count,
            final(self).store_size == old(self).store_size,
            final(self).last_error == old(self).last_error,
            final(self).started_at_unix == old(self).started_at_unix,
    {
        let now = clamp_clock_reading(current_unix_seconds());
        proof { lemma_safe_reading(0, now); }
        self.record_request_completed_at(usage, now);
    }

    /// Records the current number of stored responses.
    pub fn set_store_size(&mut self, size: usize)
        ensures
            final(self).store_size == size,
            final(self).request_count == old(self).request_count,
            final(self).completed_request_count == old(self).completed_request_count,
            final(self).error_count == old(self).error_count,
            final(self).last_error == old(self).last_error,
            final(self).started_at_unix == old(self).started_at_unix,
            final(self).buckets@ == old(self).buckets@,
    {
        self.store_size = size;
    }

    /// The per-minute token series of `range_minutes` minutes ending at the
    /// minute of `now_unix_seconds`, after dropping buckets beyond `MAX_BUCKETS`.
    /// Minutes without a stored bucket show as empty buckets; `partial_usage`
    /// tells whether some shown minute had completions without usage.
    pub fn token_series_at(&mut self, range_minutes: u32, now_unix_seconds: i64) -> (s: TokenSeriesSnapshot)
        requires
            series_in_range(range_minutes, now_unix_seconds),
        ensures
            final(self).buckets@ == trimmed_buckets(old(self).buckets@),
            final(self).request_count == old(self).request_count,
            final(self).completed_request_count == old(self).completed_request_count,
            final(self).error_count == old(self).error_count,
            final(self).store_size == old(self).store_size,
            final(self).last_error == old(self).last_error,
            final(self).started_at_unix == old(self).started_at_unix,
            series_shown(final(self).buckets@, s, range_minutes, now_unix_seconds),
            buckets_sorted(old(self).buckets@) ==> buckets_sorted(final(self).buckets@),
    {
        proof {
            if buckets_sorted(self.buckets@) {
                lemma_trim_keeps_sorted(self.buckets@);
            }
        }
        trim_old_buckets(&mut self.buckets);
        let ghost b = self.buckets@;
        let now_minute = floor_to_minute(now_unix_seconds);
        let span: i64 = range_minutes as i64 - 1;
        let first_minute = now_minute - span * 60;
        let mut cursor = first_minute;
        let mut idx: usize = 0;
        let mut buckets: Vec<TokenBucketSnapshot> = Vec::new();
        let mut partial_usage = false;
        while cursor <= now_minute
            invariant
                b == self.buckets@,
                first_minute == series_first_minute(range_minutes, now_unix_seconds),
                now_minute == minute_of(now_unix_seconds as int),
                now_minute + 60 <= i64::MAX,
                first_minute <= now_minute + 60,
                now_minute + 60 - first_minute == 60 * range_minutes,
                cursor == first_minute + 60 * buckets@.len(),
                cursor <= now_minute + 60,
                idx <= b.len(),
                buckets_sorted(b) ==> forall|j: int| 0 <= j < idx ==> b[j].minute_start_unix < cursor,
                forall|k: int| 0 <= k < buckets@.len() ==>
                    (#[trigger] buckets@[k]).minute_start_unix == first_minute + 60 * k,
                forall|k: int| 0 <= k < buckets@.len() ==>
                    #[trigger] buckets@[k] == empty_bucket(buckets@[k].minute_start_unix)
                    || b.contains(buckets@[k]),
                buckets_sorted(b) ==> forall|k: int| 0 <= k < buckets@.len() ==>
                    #[trigger] buckets@[k] == shown_bucket(b, buckets@[k].minute_start_unix as int),
                partial_usage == exists|k: int| 0 <= k < buckets@.len()
                    && (#[trigger] buckets@[k]).completed_requests > buckets@[k].usage_requests,
            decreases now_minute + 60 - cursor,
        {
            while idx < self.buckets.len() && self.buckets[idx].minute_start_unix < cursor
                invariant
                    b == self.buckets@,
                    idx <= b.len(),
                    buckets_sorted(b) ==> forall|j: int| 0 <= j < idx ==> b[j].minute_start_unix < cursor,
                decreases b.len() - idx,
            {
                idx = idx + 1;
            }
            let found = idx < self.buckets.len() && self.buckets[idx].minute_start_unix == cursor;
            let bucket = if found {
                let x = self.buckets[idx];
                proof {
                    assert(b.contains(x));
                    if buckets_sorted(b) {
                        let w = choose|i: int| 0 <= i < b.len() && b[i].minute_start_unix == cursor;
                        assert(w == idx as int);
                    }
                }
                if x.completed_requests > x.usage_requests {
                    partial_usage = true;
                }
                x
            } else {
                proof {
                    if buckets_sorted(b) {
                        assert forall|i: int| 0 <= i < b.len() implies b[i].minute_start_unix != cursor by {
                            if i >= idx {
                                assert(b[idx as int].minute_start_unix >= cursor);
                            }
                        }
                    }
                }
                TokenBucketSnapshot {
                    minute_start_unix: cursor,
                    input_tokens: 0,
                    output_tokens: 0,
                    total_tokens: 0,
                    completed_requests: 0,
                    usage_requests: 0,
                }
            };
            let ghost before = buckets@;
            buckets.push(bucket);
            assert(buckets@.last() == bucket);
            proof {
                if partial_usage {
                    if !(exists|k: int| 0 <= k < before.len()
                        && (#[trigger] before[k]).completed_requests > before[k].usage_requests) {
                        assert(buckets@[before.len() as int].completed_requests > buckets@[before.len() as int].usage_requests);
                    } else {
                        let k = choose|k: int| 0 <= k < before.len()
                            && (#[trigger] before[k]).completed_requests > before[k].usage_requests;
                        assert(buckets@[k] == before[k]);
                    }
                } else {
                    assert forall|k: int| 0 <= k < buckets@.len() implies
                        !((#[trigger] buckets@[k]).completed_requests > buckets@[k].usage_requests) by {
                        if k < before.len() {
                            assert(buckets@[k] == before[k]);
                        }
                    }
                }
            }
            cursor = cursor + 60;
        }
        assert(cursor == now_minute + 60) by {
            assert(cursor - first_minute == 60 * buckets@.len());
            assert(now_minute + 60 - first_minute == 60 * range_minutes);
            assert(cursor > now_minute);
            assert(buckets@.len() <= range_minutes) by (nonlinear_arith)
                requires
                    60 * buckets@.len() <= 60 * range_minutes;
            assert(buckets@.len() >= range_minutes) by (nonlinear_arith)
                requires
                    60 * buckets@.len() > 60 * range_minutes - 60;
        }
        assert(buckets@.len() == series_len(range_minutes)) by (nonlinear_arith)
            requires
                60 * buckets@.len() == 60 * range_minutes;
        let ghost bv = buckets@;
        let s = TokenSeriesSnapshot { range_minutes, partial_usage, buckets };
        assert(s.buckets@ == bv);
        s
    }

    /// The token series ending at the current clock minute: as
    /// `token_series_at` at the clock's reading (kept within
    /// `clamp_clock_reading`'s range).
    pub fn token_series(&mut self, range_minutes: u32) -> (s: TokenSeriesSnapshot)
        ensures
            final(self).buckets@ == trimmed_buckets(old(self).buckets@),
            final(self).request_count == old(self).request_count,
            final(self).completed_request_count == old(self).completed_request_count,
            final(self).error_count == old(self).error_count,
            final(self).store_size == old(self).store_size,
            final(self).last_error == old(self).last_error,
            final(self).started_at_unix == old(self).started_at_unix,
            exists|now: i64| #[trigger] series_shown(final(self).buckets@, s, range_minutes, now),
            buckets_sorted(old(self).buckets@) ==> buckets_sorted(final(self).buckets@),
    {
        let now = clamp_clock_reading(current_unix_seconds());
        proof { lemma_safe_reading(range_minutes, now); }
        self.token_series_at(range_minutes, now)
    }

    /// The counters as of `now`.
    pub fn snapshot_at(&self, now: i64) -> (s: RuntimeMetricsSnapshot)
        ensures
            s.uptime_seconds == saturating_uptime(now, self.started_at_unix),
            s.request_count == self.request_count,
            s.completed_request_count == self.completed_request_count,
            s.error_count == self.error_count,
            s.store_size == self.store_size,
            s.last_error == self.last_error,
    {
        let diff: i128 = now as i128 - self.started_at_unix as i128;
        let uptime_seconds: u64 = if diff <= 0 {
            0
        } else if diff > 9223372036854775807i128 {
            9223372036854775807u64
        } else {
            diff as u64
        };
        RuntimeMetricsSnapshot {
            uptime_seconds,
            request_count: self.request_count,
            completed_request_count: self.completed_request_count,
            error_count: self.error_count,
            store_size: self.store_size,
            last_error: self.last_error.clone(),
        }
    }

    /// The counters as of the current clock reading.
    pub fn snapshot(&self) -> (s: RuntimeMetricsSnapshot)
        ensures
            exists|now: i64| s.uptime_seconds == saturating_uptime(now, self.started_at_unix),
            s.request_count == self.request_count,
            s.completed_request_count == self.completed_request_count,
            s.error_count == self.error_count,
            s.store_size == self.store_size,
            s.last_error == self.last_error,
    {
        let now = current_unix_seconds();
        self.snapshot_at(now)
    }
}

/// Recording a completion counts it in the bucket of its minute and adds its
/// usage there: the newest bucket is that minute's, with one more completed
/// request and the usage's input, output and total tokens added (one more
/// usage request when there is usage); every older bucket is untouched. When
/// the newest bucket was of another minute, the new bucket holds exactly this
/// completion.
pub proof fn law_completion_adds_usage(b: Seq<TokenBucketSnapshot>, usage: Option<Usage>, t: i64)
    requires
        completion_has_room(b, usage, t),
    ensures
        ({
            let a = buckets_after_completion(b, usage, t);
            let m = minute_of(t as int);
            let same = b.len() > 0 && b.last().minute_start_unix == m;
            let (pi, po, pt, pc, pu): (int, int, int, int, int) = if same {
                (b.last().input_tokens as int, b.last().output_tokens as int, b.last().total_tokens as int,
                    b.last().completed_requests as int, b.last().usage_requests as int)
            } else {
                (0, 0, 0, 0, 0)
            };
            let (ui, uo, ut, un): (int, int, int, int) = match usage {
                Some(u) => (u.input_tokens as int, u.output_tokens as int, u.total_tokens as int, 1),
                None => (0, 0, 0, 0),
            };
            &&& a.len() == if same { b.len() } else { b.len() + 1 }
            &&& forall|i: int| 0 <= i < a.len() - 1 ==> #[trigger] a[i] == b[i]
            &&& a.last().minute_start_unix == m
            &&& a.last().input_tokens == pi + ui
            &&& a.last().output_tokens == po + uo
            &&& a.last().total_tokens == pt + ut
            &&& a.last().completed_requests == pc + 1
            &&& a.last().usage_requests == pu + un
        }),
{
}

} // verus!
