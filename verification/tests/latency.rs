//! Latency and throughput.
use otelite::analytics::{self, TokenExprs, Window};
use otelite::latency::{
    latency_stats, percentile, to_millis, ttft_source, LatencyRow, LatencySample, LatencyStats, TtftReading,
    TtftSample,
};
use otelite::latency_series::{
    conversation_depth, find_bin, latency_by_context, latency_series, ContextRow, SeriesRow, SeriesSample,
};
use otelite::ratio::Quotient;
use otelite::sql::{SqlValue, Statement};
use rusqlite::types::Value;
use rusqlite::Connection;

const SCHEMA: &str = "
CREATE TABLE logs (
    id INTEGER PRIMARY KEY, timestamp INTEGER NOT NULL, observed_timestamp INTEGER, trace_id TEXT,
    span_id TEXT, severity_number INTEGER NOT NULL, severity_text TEXT, body TEXT, attributes TEXT,
    resource TEXT, scope TEXT
);
CREATE VIRTUAL TABLE logs_fts USING fts5(body, content='logs', content_rowid='id');
CREATE TRIGGER logs_fts_insert AFTER INSERT ON logs BEGIN
    INSERT INTO logs_fts(rowid, body) VALUES (new.id, new.body);
END;
CREATE TABLE spans (
    id INTEGER PRIMARY KEY, trace_id TEXT NOT NULL, span_id TEXT NOT NULL, parent_span_id TEXT,
    name TEXT NOT NULL, kind INTEGER NOT NULL, start_time INTEGER NOT NULL, end_time INTEGER NOT NULL,
    attributes TEXT, events TEXT, links TEXT, status_code INTEGER, status_message TEXT, resource TEXT,
    scope TEXT, created_at INTEGER DEFAULT 0
);
CREATE TABLE metrics (
    id INTEGER PRIMARY KEY, name TEXT NOT NULL, description TEXT, unit TEXT, metric_type INTEGER NOT NULL,
    timestamp INTEGER NOT NULL, value_int INTEGER, value_double REAL, value_histogram TEXT,
    value_summary TEXT, attributes TEXT, resource TEXT
);
";

fn setup_test_db() -> Connection {
    let conn = Connection::open_in_memory().unwrap();
    conn.execute_batch(SCHEMA).unwrap();
    conn
}

fn bind(value: &SqlValue) -> Value {
    match value {
        SqlValue::Null => Value::Null,
        SqlValue::Integer(n) => Value::Integer(*n),
        SqlValue::Text(t) => Value::Text(t.clone()),
        SqlValue::Number(bits) => Value::Real(f64::from_bits(*bits)),
    }
}

/// Runs a statement and returns its rows.
fn run(conn: &Connection, s: &Statement) -> Vec<Vec<Value>> {
    let mut stmt = conn.prepare(&s.sql).unwrap();
    let columns = stmt.column_count();
    let rows = stmt
        .query_map(rusqlite::params_from_iter(s.values.iter().map(bind)), |row| {
            (0..columns).map(|i| row.get::<_, Value>(i)).collect::<Result<Vec<_>, _>>()
        })
        .unwrap();
    rows.map(|r| r.unwrap()).collect()
}

#[allow(dead_code)]
fn integer(v: &Value) -> i64 {
    match v {
        Value::Integer(n) => *n,
        other => panic!("no integer: {:?}", other),
    }
}

#[allow(dead_code)]
fn optional_integer(v: &Value) -> Option<i64> {
    match v {
        Value::Null => None,
        other => Some(integer(other)),
    }
}

#[allow(dead_code)]
fn number(v: &Value) -> f64 {
    match v {
        Value::Real(x) => *x,
        Value::Integer(n) => *n as f64,
        other => panic!("no number: {:?}", other),
    }
}

#[allow(dead_code)]
fn text(v: &Value) -> String {
    match v {
        Value::Text(t) => t.clone(),
        other => panic!("no text: {:?}", other),
    }
}

#[allow(dead_code)]
fn optional_text(v: &Value) -> Option<String> {
    match v {
        Value::Null => None,
        other => Some(text(other)),
    }
}

fn first_of(keys: &[&str]) -> String {
    let parts: Vec<String> =
        keys.iter().map(|k| format!("json_extract(attributes, '$.\"{}\"')", k)).collect();
    format!("COALESCE({}, NULL)", parts.join(", "))
}

fn count_of(keys: &[&str]) -> String {
    let parts: Vec<String> = keys
        .iter()
        .map(|k| format!("CAST(json_extract(attributes, '$.\"{}\"') AS INTEGER)", k))
        .collect();
    format!("COALESCE({}, NULL)", parts.join(", "))
}

/// The attribute names that the tests use.
fn vocabulary() -> TokenExprs {
    let request = ["gen_ai.request.model", "llm.model_name", "model"];
    let response = ["gen_ai.response.model", "llm.response.model"];
    let both = ["gen_ai.request.model", "llm.model_name", "model", "gen_ai.response.model", "llm.response.model"];
    let system = ["gen_ai.system", "llm.system"];
    let guard = format!(
        "json_valid(attributes) AND (name = 'claude_code.llm_request' OR {} IS NOT NULL OR {} IS NOT NULL)",
        first_of(&system),
        first_of(&both)
    );
    TokenExprs {
        input: count_of(&["gen_ai.usage.input_tokens", "input_tokens"]),
        output: count_of(&["gen_ai.usage.output_tokens", "output_tokens"]),
        cache_creation: count_of(&["gen_ai.usage.cache_creation_tokens", "cache_creation_tokens"]),
        cache_read: count_of(&["gen_ai.usage.cache_read_tokens", "cache_read_tokens"]),
        model: first_of(&both),
        request_model: first_of(&request),
        response_model: first_of(&response),
        system: first_of(&system),
        llm_span_guard: guard.clone(),
        request_span_guard: guard,
    }
}

fn window(start: Option<i64>, end: Option<i64>) -> Window {
    Window { start, end }
}

fn owned(s: Option<&str>) -> Option<String> {
    s.map(|s| s.to_string())
}

fn query_latency_stats(
    conn: &Connection,
    start: Option<i64>,
    end: Option<i64>,
    model: Option<&str>,
) -> Vec<LatencyStats> {
    let rows: Vec<LatencyRow> =
        run(conn, &analytics::query_latency_stats(&vocabulary(), window(start, end), &owned(model)))
            .iter()
            .map(|r| LatencyRow {
                model: optional_text(&r[0]),
                sample: LatencySample {
                    duration_ns: integer(&r[1]),
                    ttft: TtftReading::Absent,
                    output_tokens: optional_integer(&r[5]),
                    input_tokens: optional_integer(&r[6]),
                    cache_creation_tokens: optional_integer(&r[7]),
                    cache_read_tokens: optional_integer(&r[8]),
                },
            })
            .collect();
    latency_stats(&rows)
}

fn per_second(q: &Option<Quotient>) -> f64 {
    let q = q.as_ref().unwrap();
    q.numerator as f64 / (q.denominator as f64 / 1e9)
}

const T0: i64 = 1_700_000_000_000_000_000;
const END: i64 = T0 + 10_000_000_000;

fn insert_span(
    conn: &Connection,
    span_id: &str,
    model: &str,
    start_ns: i64,
    duration_ns: i64,
    output_tokens: Option<i64>,
) {
    let attrs = match output_tokens {
        Some(tokens) => format!(
            r#"{{"model":"{model}","gen_ai.request.model":"{model}","output_tokens":"{tokens}"}}"#
        ),
        None => format!(r#"{{"model":"{model}","gen_ai.request.model":"{model}"}}"#),
    };
    conn.execute(
        r#"INSERT INTO spans (trace_id, span_id, name, kind, start_time, end_time, attributes, status_code)
           VALUES ('t', ?1, 'claude_code.llm_request', 0, ?2, ?3, ?4, 1)"#,
        (span_id, start_ns, start_ns + duration_ns, attrs),
    )
    .unwrap();
}

fn insert_rate(conn: &Connection, span_id: &str, model: &str, start_ns: i64, tokens: i64) {
    insert_span(conn, span_id, model, start_ns, 1_000_000_000, Some(tokens));
}

#[test]
fn test_throughput_percentile_fixed_vectors_9_10_11() {
    let conn = setup_test_db();

    for (i, tokens) in (1..=9i64).enumerate() {
        insert_rate(&conn, &format!("s9-{i}"), "m9", T0 + i as i64, tokens);
    }
    for (i, tokens) in (1..=10i64).enumerate() {
        insert_rate(&conn, &format!("s10-{i}"), "m10", T0 + i as i64, tokens);
    }
    for (i, tokens) in (1..=11i64).enumerate() {
        insert_rate(&conn, &format!("s11-{i}"), "m11", T0 + i as i64, tokens);
    }

    let rows =
        query_latency_stats(&conn, Some(T0), Some(END), None);
    let by_model: std::collections::HashMap<_, _> =
        rows.iter().map(|r| (r.model.clone().unwrap(), r)).collect();

    let m9 = by_model.get("m9").unwrap();
    assert_eq!(m9.throughput_sample_count, 9);
    assert_eq!(per_second(&m9.derived_rate_p10), 2.0);
    assert_eq!(per_second(&m9.derived_rate_p50), 5.0);
    assert_eq!(per_second(&m9.derived_rate_p90), 8.0);

    let m10 = by_model.get("m10").unwrap();
    assert_eq!(m10.throughput_sample_count, 10);
    assert_eq!(per_second(&m10.derived_rate_p10), 2.0);
    assert_eq!(per_second(&m10.derived_rate_p50), 6.0);
    assert_eq!(per_second(&m10.derived_rate_p90), 9.0);

    let m11 = by_model.get("m11").unwrap();
    assert_eq!(m11.throughput_sample_count, 11);
    assert_eq!(per_second(&m11.derived_rate_p10), 2.0);
    assert_eq!(per_second(&m11.derived_rate_p50), 6.0);
    assert_eq!(per_second(&m11.derived_rate_p90), 10.0);
}

#[test]
fn test_throughput_is_per_call_not_aggregate() {
    let conn = setup_test_db();
    insert_rate(&conn, "a", "m", T0, 10);
    insert_rate(&conn, "b", "m", T0 + 1, 100);
    insert_rate(&conn, "c", "m", T0 + 2, 1000);

    let rows =
        query_latency_stats(&conn, Some(T0), Some(END), None);
    assert_eq!(rows.len(), 1);
    let row = &rows[0];
    assert_eq!(row.throughput_sample_count, 3);
    assert_eq!(per_second(&row.derived_rate_p10), 10.0);
    assert_eq!(per_second(&row.derived_rate_p50), 100.0);
    assert_eq!(per_second(&row.derived_rate_p90), 1000.0);
    assert_ne!(per_second(&row.derived_rate_p50), 370.0);
}

#[test]
fn test_throughput_rate_uses_raw_nanoseconds() {
    let conn = setup_test_db();
    insert_span(&conn, "fast", "m", T0, 1_500_000, Some(10));

    let rows =
        query_latency_stats(&conn, Some(T0), Some(END), None);
    assert_eq!(rows.len(), 1);
    let rate = per_second(&rows[0].derived_rate_p50);
    assert!(
        (rate - 10e9 / 1_500_000.0).abs() < 1e-6,
        "expected 6666.67 tok/s, got {rate}"
    );
    assert!(
        (rate - 10_000.0).abs() > 1_000.0,
        "integer-ms truncation detected: {rate}"
    );
}

#[test]
fn test_throughput_eligibility_and_sample_count() {
    let conn = setup_test_db();
    insert_rate(&conn, "e1", "m", T0, 10);
    insert_rate(&conn, "e2", "m", T0 + 1, 20);
    insert_rate(&conn, "e3", "m", T0 + 2, 30);
    insert_span(&conn, "no-output", "m", T0 + 3, 1_000_000_000, Some(0));
    insert_span(&conn, "no-attr", "m", T0 + 4, 1_000_000_000, None);
    insert_span(&conn, "zero-duration", "m", T0 + 5, 0, Some(50));

    let rows =
        query_latency_stats(&conn, Some(T0), Some(END), None);
    assert_eq!(rows.len(), 1);
    let row = &rows[0];
    assert_eq!(row.count, 6);
    assert_eq!(row.throughput_sample_count, 3);
    assert_eq!(per_second(&row.derived_rate_p10), 10.0);
    assert_eq!(per_second(&row.derived_rate_p50), 20.0);
    assert_eq!(per_second(&row.derived_rate_p90), 30.0);
}

fn sample(duration_ms: i64, ttft: TtftReading) -> LatencyRow {
    LatencyRow {
        model: Some("m".to_string()),
        sample: LatencySample {
            duration_ns: duration_ms * 1_000_000,
            ttft,
            output_tokens: Some(10),
            input_tokens: Some(100),
            cache_creation_tokens: None,
            cache_read_tokens: Some(100),
        },
    }
}

#[test]
fn first_token_times_are_judged() {
    let stats = latency_stats(&vec![
        sample(1_000, TtftReading::Millis { ms: 200, valid: true }),
        sample(1_000, TtftReading::Millis { ms: 1_000, valid: true }),
        sample(1_000, TtftReading::Millis { ms: 5_000, valid: false }),
        sample(1_000, TtftReading::Invalid),
        sample(1_000, TtftReading::Absent),
    ]);
    assert_eq!(stats.len(), 1);
    let s = &stats[0];
    assert_eq!((s.count, s.total_ms, s.p50_ms, s.p99_ms), (5, 5_000, 1_000, 1_000));
    assert_eq!(s.ttft_invalid_count, 2);
    assert_eq!(s.ttft_count, 2);
    assert_eq!(s.ttft_p99_ms, Some(1_000));
    assert_eq!(s.ttft_degenerate_count, 1);
    assert_eq!(s.input_tokens_p50, Some(100));
    let ratio = s.output_input_ratio_p50.as_ref().unwrap();
    assert_eq!(ratio.numerator * 20, ratio.denominator);
}

#[test]
fn percentiles_are_ordered() {
    let v: Vec<i64> = (0..101).collect();
    assert_eq!((percentile(&v, 0), percentile(&v, 50), percentile(&v, 95), percentile(&v, 100)), (0, 50, 95, 100));
    assert!(percentile(&v, 95) <= percentile(&v, 99));
    assert_eq!(to_millis(1_999_999), 1);
    assert_eq!(to_millis(-1_999_999), -1);
}

#[test]
fn the_first_reported_first_token_time_counts() {
    let some = |s: &str| Some(s.to_string());
    let source = ttft_source(&some("0.5"), &some("0.7"), &some("900")).unwrap();
    assert_eq!((source.raw.as_str(), source.millis_per_unit), ("0.5", 1_000));
    let source = ttft_source(&None, &some("0.7"), &some("900")).unwrap();
    assert_eq!((source.raw.as_str(), source.millis_per_unit), ("0.7", 1_000));
    let source = ttft_source(&None, &None, &some("900")).unwrap();
    assert_eq!((source.raw.as_str(), source.millis_per_unit), ("900", 1));
    assert!(ttft_source(&None, &None, &None).is_none());
}

#[test]
fn series_are_summarised_by_bucket_and_label() {
    let row = |bucket, label: &str, duration_ms, is_error| SeriesRow {
        bucket,
        label: Some(label.to_string()),
        sample: SeriesSample { timing: TtftSample { duration_ms, reading: TtftReading::Absent }, is_error },
    };
    let rows = vec![row(0, "a", 10, false), row(0, "a", 30, true), row(60, "a", 5, false), row(0, "b", 7, false)];
    let points = latency_series(&rows, false);
    assert_eq!(points.len(), 3);
    let first = points.iter().find(|p| p.timestamp == 0 && p.model.as_deref() == Some("a")).unwrap();
    assert_eq!((first.summary.count, first.error_count), (2, 1));
    assert_eq!((first.summary.min_ms, first.summary.max_ms, first.summary.total_ms), (10, 30, 40));
    assert!(first.name.is_none());
    assert!(latency_series(&rows, true).iter().all(|p| p.model.is_none() && p.name.is_some()));
}

#[test]
fn contexts_are_binned() {
    assert!(find_bin(1) < find_bin(1_000_000));
    let row = |input_tokens, duration_ms| ContextRow {
        model: None,
        input_tokens,
        timing: TtftSample { duration_ms, reading: TtftReading::Absent },
    };
    let bins = latency_by_context(&vec![row(10, 5), row(20, 15), row(500_000, 100)]);
    assert_eq!(bins.len(), 2);
    assert_eq!(bins[0].summary.count, 2);
    assert_eq!((bins[0].summary.min_ms, bins[0].summary.max_ms), (5, 15));
}

#[test]
fn conversations_have_a_depth() {
    let d = conversation_depth(&vec![1, 2, 3, 10]);
    assert_eq!((d.total_conversations, d.total_turns), (4, 16));
    assert_eq!(d.p99_turns, 10);
    assert_eq!(conversation_depth(&Vec::new()).total_conversations, 0);
}
