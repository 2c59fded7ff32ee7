//! What the store says of itself, and the rows that its statements return.
use crate::cache;
use crate::error::StorageError;
use crate::listing;
use crate::ratio;
use crate::ratio::Ratio;
use crate::sql::Statement;
use crate::text;
use vstd::prelude::*;

verus! {

pub const COUNT_LOGS: &'static str = "SELECT COUNT(*) FROM logs";

pub const COUNT_SPANS: &'static str = "SELECT COUNT(*) FROM spans";

pub const COUNT_METRICS: &'static str = "SELECT COUNT(*) FROM metrics";

pub const OLDEST_LOG: &'static str = "SELECT MIN(timestamp) FROM logs";

pub const OLDEST_SPAN: &'static str = "SELECT MIN(start_time) FROM spans";

pub const OLDEST_METRIC: &'static str = "SELECT MIN(timestamp) FROM metrics";

pub const NEWEST_LOG: &'static str = "SELECT MAX(timestamp) FROM logs";

pub const NEWEST_SPAN: &'static str = "SELECT MAX(end_time) FROM spans";

pub const NEWEST_METRIC: &'static str = "SELECT MAX(timestamp) FROM metrics";

/// What the store holds.
pub struct StorageStats {
    pub log_count: u64,
    pub span_count: u64,
    pub metric_count: u64,
    pub oldest_timestamp: Option<i64>,
    pub newest_timestamp: Option<i64>,
    pub storage_size_bytes: u64,
}

/// What the statements on the store returned, table by table. A time is absent where a table is empty.
pub struct StoreCounts {
    pub logs: i64,
    pub spans: i64,
    pub metrics: i64,
    pub oldest_log: Option<i64>,
    pub oldest_span: Option<i64>,
    pub oldest_metric: Option<i64>,
    pub newest_log: Option<i64>,
    pub newest_span: Option<i64>,
    pub newest_metric: Option<i64>,
    pub page_count: Option<i64>,
    pub page_size: Option<i64>,
}

/// The earlier of two times that may be absent.
pub open spec fn earlier(a: Option<i64>, b: Option<i64>) -> Option<i64> {
    match (a, b) {
        (Some(x), Some(y)) => if x <= y {
            a
        } else {
            b
        },
        (Some(_), None) => a,
        (None, _) => b,
    }
}

/// The later of two times that may be absent.
pub open spec fn later(a: Option<i64>, b: Option<i64>) -> Option<i64> {
    match (a, b) {
        (Some(x), Some(y)) => if x >= y {
            a
        } else {
            b
        },
        (Some(_), None) => a,
        (None, _) => b,
    }
}

fn earlier_of(a: Option<i64>, b: Option<i64>) -> (r: Option<i64>)
    ensures
        r == earlier(a, b),
{
    match (a, b) {
        (Some(x), Some(y)) => if x <= y {
            a
        } else {
            b
        },
        (Some(_), None) => a,
        (None, _) => b,
    }
}

fn later_of(a: Option<i64>, b: Option<i64>) -> (r: Option<i64>)
    ensures
        r == later(a, b),
{
    match (a, b) {
        (Some(x), Some(y)) => if x >= y {
            a
        } else {
            b
        },
        (Some(_), None) => a,
        (None, _) => b,
    }
}

/// A number that may be unknown.
pub open spec fn known_or(n: Option<i64>, otherwise: i64) -> i64 {
    match n {
        Some(v) => v,
        None => otherwise,
    }
}

fn take_or(n: Option<i64>, otherwise: i64) -> (v: i64)
    ensures
        v == known_or(n, otherwise),
{
    match n {
        Some(v) => v,
        None => otherwise,
    }
}

/// The size of the database: its pages, of four KiB where their size is unknown.
pub open spec fn size_of(page_count: Option<i64>, page_size: Option<i64>) -> int {
    known_or(page_count, 0) * known_or(page_size, 4096)
}

/// Puts together what the store holds.
pub fn get_stats(c: &StoreCounts) -> (s: StorageStats)
    requires
        i64::MIN <= size_of(c.page_count, c.page_size) <= i64::MAX,
    ensures
        s.log_count == c.logs as u64,
        s.span_count == c.spans as u64,
        s.metric_count == c.metrics as u64,
        s.oldest_timestamp == earlier(earlier(c.oldest_log, c.oldest_span), c.oldest_metric),
        s.newest_timestamp == later(later(c.newest_log, c.newest_span), c.newest_metric),
        s.storage_size_bytes == size_of(c.page_count, c.page_size) as i64 as u64,
{
    let size: i64 = take_or(c.page_count, 0) * take_or(c.page_size, 4096);
    StorageStats {
        log_count: #[verifier::truncate] (c.logs as u64),
        span_count: #[verifier::truncate] (c.spans as u64),
        metric_count: #[verifier::truncate] (c.metrics as u64),
        oldest_timestamp: earlier_of(earlier_of(c.oldest_log, c.oldest_span), c.oldest_metric),
        newest_timestamp: later_of(later_of(c.newest_log, c.newest_span), c.newest_metric),
        storage_size_bytes: #[verifier::truncate] (size as u64),
    }
}

/// The earliest of three times comes before each of them, and is one of them where there is any.
pub proof fn earliest_bounds_all(a: Option<i64>, b: Option<i64>, c: Option<i64>)
    ensures
        earlier(earlier(a, b), c) is None <==> a is None && b is None && c is None,
        earlier(earlier(a, b), c) matches Some(t) ==> (Some(t) == a || Some(t) == b || Some(t) == c) && (
        a matches Some(x) ==> t <= x) && (b matches Some(x) ==> t <= x) && (c matches Some(x) ==> t <= x),
        later(later(a, b), c) is None <==> a is None && b is None && c is None,
        later(later(a, b), c) matches Some(t) ==> (Some(t) == a || Some(t) == b || Some(t) == c) && (
        a matches Some(x) ==> t >= x) && (b matches Some(x) ==> t >= x) && (c matches Some(x) ==> t >= x),
{
}

/// The keys of the resources of the newest records of a table.
pub open spec fn resource_keys_text(table: Seq<char>, time: Seq<char>) -> Seq<char> {
    text::flat(
        seq![
            "SELECT je.key FROM (SELECT "@,
            table,
            ".resource AS resource FROM "@,
            table,
            " ORDER BY "@,
            time,
            " DESC LIMIT 50000) r, json_each(CASE WHEN json_valid(r.resource) THEN json_extract(r.resource, '$.attributes') END) je GROUP BY je.key LIMIT 50"@,
        ],
    )
}

/// The column by which the records of a signal are the newest.
pub open spec fn time_column(signal: Seq<char>) -> Option<Seq<char>> {
    if signal == "logs"@ || signal == "metrics"@ {
        Some("timestamp"@)
    } else if signal == "spans"@ {
        Some("start_time"@)
    } else {
        None
    }
}

/// The statement that reads up to fifty keys of the resources of a signal. An unknown signal is
/// refused.
pub fn distinct_resource_keys(signal: &str) -> (r: Result<Statement, StorageError>)
    ensures
        match r {
            Ok(s) => time_column(signal@) matches Some(t) && s@ == listing::begin(
                resource_keys_text(signal@, t),
            ),
            Err(StorageError::QueryError(m)) => time_column(signal@) is None && m@ == "Unknown signal type: "@
                + signal@,
            Err(_) => false,
        },
{
    let time = if text::same_text(signal, "logs") || text::same_text(signal, "metrics") {
        "timestamp"
    } else if text::same_text(signal, "spans") {
        "start_time"
    } else {
        let mut m = "Unknown signal type: ".to_owned();
        m.append(signal);
        return Err(StorageError::QueryError(m));
    };
    let parts: Vec<&str> = vec![
        "SELECT je.key FROM (SELECT ",
        signal,
        ".resource AS resource FROM ",
        signal,
        " ORDER BY ",
        time,
        " DESC LIMIT 50000) r, json_each(CASE WHEN json_valid(r.resource) THEN json_extract(r.resource, '$.attributes') END) je GROUP BY je.key LIMIT 50",
    ];
    proof {
        assert(text::views(parts@) =~= seq![
            "SELECT je.key FROM (SELECT "@,
            signal@,
            ".resource AS resource FROM "@,
            signal@,
            " ORDER BY "@,
            time@,
            " DESC LIMIT 50000) r, json_each(CASE WHEN json_valid(r.resource) THEN json_extract(r.resource, '$.attributes') END) je GROUP BY je.key LIMIT 50"@,
        ]);
    }
    let sql = text::concat(&parts);
    Ok(Statement::new(sql.as_str()))
}

/// The kinds of metric, and so the columns that hold their value.
#[derive(Clone, Copy, Debug, PartialEq, Eq, Structural)]
pub enum MetricKind {
    Gauge,
    Counter,
    Histogram,
    Summary,
    /// A kind that is not known; it counts as a gauge of zero.
    Unknown,
}

/// The kind of a stored metric.
pub fn metric_kind(stored: i32) -> (k: MetricKind)
    ensures
        k == if stored == 0 {
            MetricKind::Gauge
        } else if stored == 1 {
            MetricKind::Counter
        } else if stored == 2 {
            MetricKind::Histogram
        } else if stored == 3 {
            MetricKind::Summary
        } else {
            MetricKind::Unknown
        },
{
    match stored {
        0 => MetricKind::Gauge,
        1 => MetricKind::Counter,
        2 => MetricKind::Histogram,
        3 => MetricKind::Summary,
        _ => MetricKind::Unknown,
    }
}

/// The calls of a model and how many of them failed.
pub struct ErrorRateByModel {
    pub model: Option<String>,
    pub total: usize,
    pub errors: usize,
    /// The share of failed calls; none where there are no calls.
    pub error_rate: Option<Ratio>,
}

/// The calls of a model and how many of them were cut off.
pub struct TruncationRateByModel {
    pub model: Option<String>,
    pub total: usize,
    pub truncated: usize,
    /// The share of calls that were cut off; none where there are no calls.
    pub rate: Option<Ratio>,
}

/// The input of a model and how much of it came from the cache.
pub struct CacheHitRateByModel {
    pub model: Option<String>,
    pub total_input_tokens: u64,
    pub total_cache_read_tokens: u64,
    pub total_cache_creation_tokens: u64,
    /// The share of the input that came from the cache; none without input.
    pub hit_rate: Option<Ratio>,
}

/// Makes the error rate of a row.
pub fn error_rate(model: Option<String>, errors: usize, total: usize) -> (r: ErrorRateByModel)
    ensures
        text::optional(r.model) == text::optional(model),
        r.total == total,
        r.errors == errors,
        r.error_rate == ratio::ratio(errors as int, total as int),
{
    ErrorRateByModel { model, total, errors, error_rate: ratio::make_ratio(errors as u64, total as u64) }
}

/// Makes the truncation rate of a row.
pub fn truncation_rate(model: Option<String>, total: usize, truncated: usize) -> (r: TruncationRateByModel)
    ensures
        text::optional(r.model) == text::optional(model),
        r.total == total,
        r.truncated == truncated,
        r.rate == ratio::ratio(truncated as int, total as int),
{
    TruncationRateByModel { model, total, truncated, rate: ratio::make_ratio(truncated as u64, total as u64) }
}

/// Makes the cache hit rate of a row.
pub fn cache_hit_rate(model: Option<String>, input: u64, cache_read: u64, cache_creation: u64) -> (r:
    CacheHitRateByModel)
    requires
        cache_read + input <= u64::MAX,
    ensures
        text::optional(r.model) == text::optional(model),
        r.total_input_tokens == input,
        r.total_cache_read_tokens == cache_read,
        r.total_cache_creation_tokens == cache_creation,
        r.hit_rate == ratio::ratio(cache_read as int, cache_read + input),
{
    CacheHitRateByModel {
        model,
        total_input_tokens: input,
        total_cache_read_tokens: cache_read,
        total_cache_creation_tokens: cache_creation,
        hit_rate: cache::cache_hit_rate(cache_read, input),
    }
}

} // verus!
