//! Statements behind the series over time.
use crate::analytics;
use crate::analytics::{TokenExprs, Window};
use crate::cache;
use crate::error::StorageError;
use crate::listing;
use crate::sql::{Bind, Query, SqlValue, Statement};
use crate::text;
use vstd::prelude::*;

verus! {

/// What is read of the tokens in each bucket.
pub open spec fn cost_columns_text(x: TokenExprs) -> Seq<char> {
    text::flat(
        seq![
            "SELECT (start_time / ?) * ? AS bucket, "@,
            x.model@,
            " AS model, COALESCE(SUM("@,
            x.input@,
            "), 0), COALESCE(SUM("@,
            x.output@,
            "), 0), COALESCE(SUM("@,
            x.cache_creation@,
            "), 0), COALESCE(SUM("@,
            x.cache_read@,
            "), 0), COUNT(*) AS requests FROM spans WHERE "@,
            x.llm_span_guard@,
        ],
    )
}

fn cost_columns(x: &TokenExprs) -> (s: String)
    ensures
        s@ == cost_columns_text(*x),
{
    let parts: Vec<&str> = vec![
        "SELECT (start_time / ?) * ? AS bucket, ",
        x.model.as_str(),
        " AS model, COALESCE(SUM(",
        x.input.as_str(),
        "), 0), COALESCE(SUM(",
        x.output.as_str(),
        "), 0), COALESCE(SUM(",
        x.cache_creation.as_str(),
        "), 0), COALESCE(SUM(",
        x.cache_read.as_str(),
        "), 0), COUNT(*) AS requests FROM spans WHERE ",
        x.llm_span_guard.as_str(),
    ];
    proof {
        assert(text::views(parts@) =~= seq![
            "SELECT (start_time / ?) * ? AS bucket, "@,
            x.model@,
            " AS model, COALESCE(SUM("@,
            x.input@,
            "), 0), COALESCE(SUM("@,
            x.output@,
            "), 0), COALESCE(SUM("@,
            x.cache_creation@,
            "), 0), COALESCE(SUM("@,
            x.cache_read@,
            "), 0), COUNT(*) AS requests FROM spans WHERE "@,
            x.llm_span_guard@,
        ]);
    }
    text::concat(&parts)
}

/// Reads the tokens of each model in each bucket, in the order of time. The width of a bucket is bound
/// twice, before everything else.
pub open spec fn cost_series_query(
    x: TokenExprs,
    window: Window,
    bucket_ns: i64,
    model: Option<Seq<char>>,
) -> Query {
    let start = listing::begin(cost_columns_text(x)).with(Bind::Integer(bucket_ns)).with(
        Bind::Integer(bucket_ns),
    );
    analytics::for_model(listing::in_span_window(start, window.start, window.end), x, model).plus(
        " GROUP BY bucket, model ORDER BY bucket ASC"@,
    )
}

/// The statement that reads the tokens in each bucket. A width that is not positive is refused.
pub fn query_cost_series(x: &TokenExprs, window: Window, bucket_ns: i64, model: &Option<String>) -> (r:
    Result<Statement, StorageError>)
    ensures
        match r {
            Ok(s) => bucket_ns > 0 && s@ == cost_series_query(*x, window, bucket_ns, text::optional(*model)),
            Err(StorageError::QueryError(m)) => bucket_ns <= 0 && m@ == cache::bucket_refusal(bucket_ns),
            Err(_) => false,
        },
{
    match cache::check_bucket(bucket_ns) {
        Ok(_) => {},
        Err(e) => {
            return Err(e);
        },
    }
    let mut s = Statement::new(cost_columns(x).as_str());
    s.add_value(SqlValue::Integer(bucket_ns));
    s.add_value(SqlValue::Integer(bucket_ns));
    listing::add_span_window(&mut s, window.start, window.end);
    analytics::add_model(&mut s, x, model);
    s.add_text(" GROUP BY bucket, model ORDER BY bucket ASC");
    Ok(s)
}

/// What the spans are told apart by: their name, or their model.
pub open spec fn label_text(x: TokenExprs, all_spans: bool) -> Seq<char> {
    if all_spans {
        "name"@
    } else {
        x.model@
    }
}

/// Which spans are read: all of them, or the model calls whose duration can be relied on.
pub open spec fn span_guard(x: TokenExprs, all_spans: bool) -> Seq<char> {
    if all_spans {
        "1=1"@
    } else {
        x.request_span_guard@
    }
}

fn label_of(x: &TokenExprs, all_spans: bool) -> (s: String)
    ensures
        s@ == label_text(*x, all_spans),
{
    if all_spans {
        "name".to_owned()
    } else {
        x.model.clone()
    }
}

fn guard_of(x: &TokenExprs, all_spans: bool) -> (s: String)
    ensures
        s@ == span_guard(*x, all_spans),
{
    if all_spans {
        "1=1".to_owned()
    } else {
        x.request_span_guard.clone()
    }
}

/// The start of the bucket of a span, for buckets of `bucket_ns` nanoseconds.
pub open spec fn bucket_text(bucket_ns: int) -> Seq<char> {
    "(start_time / "@ + text::signed_decimal(bucket_ns) + ") * "@ + text::signed_decimal(bucket_ns)
}

fn bucket_of(bucket_ns: i64) -> (s: String)
    ensures
        s@ == bucket_text(bucket_ns as int),
{
    let width = text::render_i64(bucket_ns);
    let mut s = "(start_time / ".to_owned();
    s.append(width.as_str());
    s.append(") * ");
    s.append(width.as_str());
    s
}

/// The narrowing to a model, which only model calls have.
pub open spec fn call_model(all_spans: bool, model: Option<Seq<char>>) -> Option<Seq<char>> {
    if all_spans {
        None
    } else {
        model
    }
}

/// Reads the duration, the time to first token and the outcome of each span beside its bucket, in the
/// order of time.
pub open spec fn latency_series_query(
    x: TokenExprs,
    window: Window,
    bucket_ns: int,
    model: Option<Seq<char>>,
    all_spans: bool,
) -> Query {
    let columns = "SELECT "@ + bucket_text(bucket_ns) + " AS bucket, "@ + label_text(x, all_spans)
        + " AS group_label, (end_time - start_time) / 1000000 AS duration_ms, "@ + analytics::TTFT_COLUMNS@
        + ", CASE WHEN status_code = 2 THEN 1 ELSE 0 END AS is_error"@;
    analytics::for_model(
        analytics::on_spans(columns, span_guard(x, all_spans), window),
        x,
        call_model(all_spans, model),
    ).plus(" ORDER BY bucket ASC"@)
}

/// The statement that reads the latency of each span beside its bucket.
pub fn query_latency_series(
    x: &TokenExprs,
    window: Window,
    bucket_secs: u64,
    model: &Option<String>,
    all_spans: bool,
) -> (s: Statement)
    requires
        bucket_secs * 1_000_000_000 <= i64::MAX,
    ensures
        s@ == latency_series_query(
            *x,
            window,
            bucket_secs * 1_000_000_000,
            text::optional(*model),
            all_spans,
        ),
{
    let bucket_ns: i64 = (bucket_secs * 1_000_000_000) as i64;
    let mut columns = "SELECT ".to_owned();
    columns.append(bucket_of(bucket_ns).as_str());
    columns.append(" AS bucket, ");
    columns.append(label_of(x, all_spans).as_str());
    columns.append(" AS group_label, (end_time - start_time) / 1000000 AS duration_ms, ");
    columns.append(analytics::TTFT_COLUMNS);
    columns.append(", CASE WHEN status_code = 2 THEN 1 ELSE 0 END AS is_error");
    let mut s = analytics::begin_on_spans(columns.as_str(), guard_of(x, all_spans).as_str(), window);
    if !all_spans {
        analytics::add_model(&mut s, x, model);
    }
    s.add_text(" ORDER BY bucket ASC");
    s
}

/// Reads the number of spans under each label in each bucket, in the order of time.
pub open spec fn calls_series_query(x: TokenExprs, window: Window, bucket_ns: int, all_spans: bool) -> Query {
    let columns = "SELECT "@ + bucket_text(bucket_ns) + " AS bucket, "@ + label_text(x, all_spans)
        + " AS label, COUNT(*) AS requests"@;
    analytics::on_spans(columns, span_guard(x, all_spans), window).plus(
        " GROUP BY bucket, "@ + label_text(x, all_spans) + " ORDER BY bucket ASC"@,
    )
}

/// The statement that reads the number of spans in each bucket.
pub fn query_calls_series(x: &TokenExprs, window: Window, bucket_secs: u64, all_spans: bool) -> (s: Statement)
    requires
        bucket_secs * 1_000_000_000 <= i64::MAX,
    ensures
        s@ == calls_series_query(*x, window, bucket_secs * 1_000_000_000, all_spans),
{
    let bucket_ns: i64 = (bucket_secs * 1_000_000_000) as i64;
    let label = label_of(x, all_spans);
    let mut columns = "SELECT ".to_owned();
    columns.append(bucket_of(bucket_ns).as_str());
    columns.append(" AS bucket, ");
    columns.append(label.as_str());
    columns.append(" AS label, COUNT(*) AS requests");
    let mut s = analytics::begin_on_spans(columns.as_str(), guard_of(x, all_spans).as_str(), window);
    let mut grouping = " GROUP BY bucket, ".to_owned();
    grouping.append(label.as_str());
    grouping.append(" ORDER BY bucket ASC");
    s.add_text(grouping.as_str());
    s
}

/// The number of spans under one label in one bucket.
pub struct CallsSeriesPoint {
    pub timestamp: i64,
    pub model: Option<String>,
    pub name: Option<String>,
    pub requests: usize,
}

/// Makes a point of a row: its label is the name of the spans, or their model.
pub fn calls_point(timestamp: i64, label: Option<String>, requests: usize, all_spans: bool) -> (p: CallsSeriesPoint)
    ensures
        p.timestamp == timestamp,
        p.requests == requests,
        all_spans ==> p.model is None && text::optional(p.name) == text::optional(label),
        !all_spans ==> p.name is None && text::optional(p.model) == text::optional(label),
{
    if all_spans {
        CallsSeriesPoint { timestamp, model: None, name: label, requests }
    } else {
        CallsSeriesPoint { timestamp, model: label, name: None, requests }
    }
}

} // verus!
