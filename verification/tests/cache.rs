//! The economics of prompt caches, read from a database.
use otelite::analytics::{self, TokenExprs, Window};
use otelite::cache::{
    cache_economics, cache_hit_rate, cache_read_write_ratio, check_bucket, distinct_series, economics_fit, start_of_bucket,
    CacheEconModelEntry, CacheEconomicsResponse, CodexUsage, RequestUsage,
};
use otelite::counter::CounterRow;
use otelite::error::StorageError;
use otelite::ratio::Ratio;
use otelite::records::{self, CacheHitRateByModel};
use otelite::sources;
use otelite::sql::{SqlValue, Statement};
use otelite::tokens::RoleTokenUsage;
use rusqlite::types::Value;
use rusqlite::Connection;

const SCHEMA: &str = "
CREATE TABLE logs (
    id INTEGER PRIMARY KEY, timestamp INTEGER NOT NULL, observed_timestamp INTEGER, trace_id TEXT,
    span_id TEXT, severity_number INTEGER NOT NULL, severity_text TEXT, body TEXT, attributes TEXT,
    resource TEXT, scope TEXT
);
CREATE VIRTUAL TABLE logs_fts USING fts5(body, content='logs', content_rowid='id');
CREATE TRIGGER logs_fts_insert AFTER INSERT ON logs BEGIN
    INSERT INTO logs_fts(rowid, body) VALUES (new.id, new.body);
END;
CREATE TABLE spans (
    id INTEGER PRIMARY KEY, trace_id TEXT NOT NULL, span_id TEXT NOT NULL, parent_span_id TEXT,
    name TEXT NOT NULL, kind INTEGER NOT NULL, start_time INTEGER NOT NULL, end_time INTEGER NOT NULL,
    attributes TEXT, events TEXT, links TEXT, status_code INTEGER, status_message TEXT, resource TEXT,
    scope TEXT, created_at INTEGER DEFAULT 0
);
CREATE TABLE metrics (
    id INTEGER PRIMARY KEY, name TEXT NOT NULL, description TEXT, unit TEXT, metric_type INTEGER NOT NULL,
    timestamp INTEGER NOT NULL, value_int INTEGER, value_double REAL, value_histogram TEXT,
    value_summary TEXT, attributes TEXT, resource TEXT
);
";

fn setup_test_db() -> Connection {
    let conn = Connection::open_in_memory().unwrap();
    conn.execute_batch(SCHEMA).unwrap();
    conn
}

fn bind(value: &SqlValue) -> Value {
    match value {
        SqlValue::Null => Value::Null,
        SqlValue::Integer(n) => Value::Integer(*n),
        SqlValue::Text(t) => Value::Text(t.clone()),
        SqlValue::Number(bits) => Value::Real(f64::from_bits(*bits)),
    }
}

/// Runs a statement and returns its rows.
fn run(conn: &Connection, s: &Statement) -> Vec<Vec<Value>> {
    let mut stmt = conn.prepare(&s.sql).unwrap();
    let columns = stmt.column_count();
    let rows = stmt
        .query_map(rusqlite::params_from_iter(s.values.iter().map(bind)), |row| {
            (0..columns).map(|i| row.get::<_, Value>(i)).collect::<Result<Vec<_>, _>>()
        })
        .unwrap();
    rows.map(|r| r.unwrap()).collect()
}

#[allow(dead_code)]
fn integer(v: &Value) -> i64 {
    match v {
        Value::Integer(n) => *n,
        other => panic!("no integer: {:?}", other),
    }
}

#[allow(dead_code)]
fn optional_integer(v: &Value) -> Option<i64> {
    match v {
        Value::Null => None,
        other => Some(integer(other)),
    }
}

#[allow(dead_code)]
fn number(v: &Value) -> f64 {
    match v {
        Value::Real(x) => *x,
        Value::Integer(n) => *n as f64,
        other => panic!("no number: {:?}", other),
    }
}

#[allow(dead_code)]
fn text(v: &Value) -> String {
    match v {
        Value::Text(t) => t.clone(),
        other => panic!("no text: {:?}", other),
    }
}

#[allow(dead_code)]
fn optional_text(v: &Value) -> Option<String> {
    match v {
        Value::Null => None,
        other => Some(text(other)),
    }
}

fn first_of(keys: &[&str]) -> String {
    let parts: Vec<String> =
        keys.iter().map(|k| format!("json_extract(attributes, '$.\"{}\"')", k)).collect();
    format!("COALESCE({}, NULL)", parts.join(", "))
}

fn count_of(keys: &[&str]) -> String {
    let parts: Vec<String> = keys
        .iter()
        .map(|k| format!("CAST(json_extract(attributes, '$.\"{}\"') AS INTEGER)", k))
        .collect();
    format!("COALESCE({}, NULL)", parts.join(", "))
}

/// The attribute names that the tests use.
fn vocabulary() -> TokenExprs {
    let request = ["gen_ai.request.model", "llm.model_name", "model"];
    let response = ["gen_ai.response.model", "llm.response.model"];
    let both = ["gen_ai.request.model", "llm.model_name", "model", "gen_ai.response.model", "llm.response.model"];
    let system = ["gen_ai.system", "llm.system"];
    let guard = format!(
        "json_valid(attributes) AND (name = 'claude_code.llm_request' OR {} IS NOT NULL OR {} IS NOT NULL)",
        first_of(&system),
        first_of(&both)
    );
    TokenExprs {
        input: count_of(&["gen_ai.usage.input_tokens", "input_tokens"]),
        output: count_of(&["gen_ai.usage.output_tokens", "output_tokens"]),
        cache_creation: count_of(&["gen_ai.usage.cache_creation_tokens", "cache_creation_tokens"]),
        cache_read: count_of(&["gen_ai.usage.cache_read_tokens", "cache_read_tokens"]),
        model: first_of(&both),
        request_model: first_of(&request),
        response_model: first_of(&response),
        system: first_of(&system),
        llm_span_guard: guard.clone(),
        request_span_guard: guard,
    }
}

fn window(start: Option<i64>, end: Option<i64>) -> Window {
    Window { start, end }
}

fn counter_rows(rows: &[Vec<Value>]) -> Vec<CounterRow> {
    rows.iter()
        .map(|r| {
            let labels = r.len() - 2;
            CounterRow {
                labels: r[..labels].iter().map(optional_text).collect(),
                timestamp: integer(&r[labels]),
                value: optional_integer(&r[labels + 1]),
            }
        })
        .collect()
}

fn baseline(conn: &Connection, name: &str, paths: &Vec<String>, labels: &Vec<Option<String>>, start: Option<i64>) -> Option<i64> {
    let s = sources::query_counter_baseline(name, paths, labels, start?);
    run(conn, &s).first().and_then(|r| optional_integer(&r[0]))
}

fn rate(r: &Option<Ratio>) -> Option<f64> {
    r.as_ref().map(|r| r.numerator as f64 / r.denominator as f64)
}

fn query_cache_economics(
    conn: &Connection,
    start: Option<i64>,
    end: Option<i64>,
    bucket_ns: i64,
) -> Result<CacheEconomicsResponse, StorageError> {
    let s = sources::query_cache_economics(&vocabulary(), window(start, end), bucket_ns)?;
    let rows = counter_rows(&run(conn, &s.counters));
    let paths = sources::token_label_paths();
    let baselines: Vec<Option<i64>> = distinct_series(&rows)
        .iter()
        .map(|labels| baseline(conn, sources::TOKEN_COUNTER, &paths, labels, start))
        .collect();
    let codex: Vec<CodexUsage> = run(conn, &s.turns)
        .iter()
        .map(|r| CodexUsage {
            bucket: integer(&r[0]),
            model: optional_text(&r[1]),
            token_type: text(&r[2]),
            tokens: number(&r[3]).round().max(0.0) as u64,
        })
        .collect();
    let requests: Vec<RequestUsage> = run(conn, &s.requests)
        .iter()
        .map(|r| RequestUsage {
            bucket: integer(&r[0]),
            model: optional_text(&r[1]),
            input: integer(&r[2]),
            cache_creation: integer(&r[3]),
            cache_read: integer(&r[4]),
        })
        .collect();
    cache_economics(&rows, &baselines, &codex, &requests, bucket_ns)
}

fn query_cache_hit_rate(
    conn: &Connection,
    start: Option<i64>,
    end: Option<i64>,
    model: Option<&str>,
) -> Vec<CacheHitRateByModel> {
    let s = analytics::query_cache_hit_rate(&vocabulary(), window(start, end), &model.map(|m| m.to_string()));
    run(conn, &s)
        .iter()
        .map(|r| {
            records::cache_hit_rate(
                optional_text(&r[0]),
                integer(&r[1]) as u64,
                integer(&r[2]) as u64,
                integer(&r[3]) as u64,
            )
        })
        .collect()
}

const T0: i64 = 1_700_000_000_000_000_000;
const BUCKET: i64 = 1_000_000_000;
const END: i64 = T0 + 2_000_000_000;

fn insert_metric_row(conn: &Connection, name: &str, timestamp: i64, value: i64, attributes: &str) {
    conn.execute(
        "INSERT INTO metrics (name, metric_type, timestamp, value_int, attributes)
         VALUES (?1, 1, ?2, ?3, ?4)",
        (name, timestamp, value, attributes),
    )
    .unwrap();
}

fn insert_histogram_row(conn: &Connection, name: &str, timestamp: i64, sum: f64, attributes: &str) {
    conn.execute(
        "INSERT INTO metrics (name, metric_type, timestamp, value_histogram, attributes)
         VALUES (?1, 2, ?2, ?3, ?4)",
        (name, timestamp, format!("[1, {sum}, []]",), attributes),
    )
    .unwrap();
}

fn insert_claude_span(
    conn: &Connection,
    span_id: &str,
    start: i64,
    model: &str,
    tokens: RoleTokenUsage,
) {
    let attrs = format!(
        r#"{{"model":"{model}","gen_ai.request.model":"{model}","input_tokens":"{}","output_tokens":"{}","cache_creation_tokens":"{}","cache_read_tokens":"{}"}}"#,
        tokens.input, tokens.output, tokens.cache_write, tokens.cache_read
    );
    conn.execute(
        r#"INSERT INTO spans (trace_id, span_id, name, kind, start_time, end_time, attributes, status_code)
           VALUES ('t', ?1, 'claude_code.llm_request', 0, ?2, ?2 + 1, ?3, 1)"#,
        (span_id, start, attrs),
    )
    .unwrap();
}

fn opencode_attrs(model: &str, ttype: &str, sid: &str) -> String {
    format!(r#"{{"agent":"a","model":"{model}","type":"{ttype}","session.id":"{sid}"}}"#)
}

fn find_model<'a>(
    resp: &'a CacheEconomicsResponse,
    model: &str,
) -> &'a CacheEconModelEntry {
    resp.models
        .iter()
        .find(|m| m.model == model)
        .unwrap_or_else(|| panic!("no model {model:?}"))
}

#[test]
fn test_cache_economics_empty() {
    let conn = setup_test_db();
    let resp = query_cache_economics(&conn, Some(T0), Some(END), BUCKET).ok().unwrap();
    assert!(resp.models.is_empty());
    assert!(resp.series.is_empty());
}

#[test]
fn test_cache_economics_invalid_bucket() {
    let conn = setup_test_db();
    assert!(query_cache_economics(&conn, Some(T0), Some(END), 0).is_err());
}

#[test]
fn test_cache_economics_opencode_counters() {
    let conn = setup_test_db();

    insert_metric_row(
        &conn,
        "opencode.token.usage",
        T0 - 10,
        100,
        &opencode_attrs("m", "cacheRead", "s1"),
    );
    insert_metric_row(
        &conn,
        "opencode.token.usage",
        T0 + 400_000_000,
        300,
        &opencode_attrs("m", "cacheRead", "s1"),
    );
    insert_metric_row(
        &conn,
        "opencode.token.usage",
        T0 + 1_400_000_000,
        350,
        &opencode_attrs("m", "cacheRead", "s1"),
    );
    insert_metric_row(
        &conn,
        "opencode.token.usage",
        T0 + 100_000_000,
        10,
        &opencode_attrs("m", "cacheCreation", "s1"),
    );
    insert_metric_row(
        &conn,
        "opencode.token.usage",
        T0 - 10,
        0,
        &opencode_attrs("m", "input", "s1"),
    );
    insert_metric_row(
        &conn,
        "opencode.token.usage",
        T0 + 100_000_000,
        50,
        &opencode_attrs("m", "input", "s1"),
    );

    let resp = query_cache_economics(&conn, Some(T0), Some(END), BUCKET).ok().unwrap();
    let m = find_model(&resp, "m");
    assert_eq!(m.cache_read_tokens, 250);
    assert_eq!(m.cache_write_tokens, 10);
    assert_eq!(m.input_tokens, 50);
    assert!((rate(&m.hit_rate).unwrap() - 250.0 / 300.0).abs() < 1e-12);
    assert_eq!(rate(&m.read_write_ratio), Some(25.0));
    assert!(!m.savings_known);

    assert_eq!(resp.series.len(), 2);
    let b0 = resp.series.iter().find(|p| p.timestamp == T0).unwrap();
    let b1 = resp
        .series
        .iter()
        .find(|p| p.timestamp == T0 + BUCKET)
        .unwrap();
    assert_eq!(b0.cache_read, 200);
    assert_eq!(b0.cache_write, 10);
    assert_eq!(b0.input, 50);
    assert_eq!(b1.cache_read, 50);
    assert_eq!(b1.cache_write, 0);
    assert_eq!(b1.input, 0);
}

#[test]
fn test_cache_economics_opencode_in_window_reset() {
    let conn = setup_test_db();

    insert_metric_row(
        &conn,
        "opencode.token.usage",
        T0 - 10,
        1000,
        &opencode_attrs("m", "cacheRead", "s1"),
    );
    insert_metric_row(
        &conn,
        "opencode.token.usage",
        T0,
        20,
        &opencode_attrs("m", "cacheRead", "s1"),
    );
    insert_metric_row(
        &conn,
        "opencode.token.usage",
        T0 + 1_400_000_000,
        80,
        &opencode_attrs("m", "cacheRead", "s1"),
    );

    let resp = query_cache_economics(&conn, Some(T0), Some(END), BUCKET).ok().unwrap();
    let m = find_model(&resp, "m");
    assert_eq!(m.cache_read_tokens, 80);
    let b0 = resp.series.iter().find(|p| p.timestamp == T0).unwrap();
    let b1 = resp
        .series
        .iter()
        .find(|p| p.timestamp == T0 + BUCKET)
        .unwrap();
    assert_eq!(b0.cache_read, 20);
    assert_eq!(b1.cache_read, 60);
}

#[test]
fn test_cache_economics_codex_histogram() {
    let conn = setup_test_db();

    let att = |tt: &str| format!(r#"{{"model":"c-m","token_type":"{tt}"}}"#);
    insert_histogram_row(
        &conn,
        "codex.turn.token_usage",
        T0,
        100.0,
        &att("cached_input"),
    );
    insert_histogram_row(
        &conn,
        "codex.turn.token_usage",
        T0,
        40.0,
        &att("cache_write_input"),
    );
    insert_histogram_row(&conn, "codex.turn.token_usage", T0, 300.0, &att("input"));
    insert_histogram_row(&conn, "codex.turn.token_usage", T0, 440.0, &att("total"));
    insert_histogram_row(&conn, "codex.turn.token_usage", T0, 50.0, &att("output"));
    insert_histogram_row(
        &conn,
        "codex.turn.token_usage",
        T0 + 1_500_000_000,
        25.0,
        &att("cached_input"),
    );

    let resp = query_cache_economics(&conn, Some(T0), Some(END), BUCKET).ok().unwrap();
    let m = find_model(&resp, "c-m");
    assert_eq!(m.cache_read_tokens, 125);
    assert_eq!(m.cache_write_tokens, 40);
    assert_eq!(m.input_tokens, 300);
    assert!((rate(&m.hit_rate).unwrap() - 125.0 / 425.0).abs() < 1e-12);
    assert!((rate(&m.read_write_ratio).unwrap() - 125.0 / 40.0).abs() < 1e-12);

    let b0 = resp.series.iter().find(|p| p.timestamp == T0).unwrap();
    let b1 = resp
        .series
        .iter()
        .find(|p| p.timestamp == T0 + BUCKET)
        .unwrap();
    assert_eq!(b0.cache_read, 100);
    assert_eq!(b0.cache_write, 40);
    assert_eq!(b1.cache_read, 25);
}

#[test]
fn test_cache_economics_claude_spans() {
    let conn = setup_test_db();

    insert_claude_span(
        &conn,
        "sp1",
        T0,
        "k",
        RoleTokenUsage {
            input: 700,
            output: 100,
            cache_read: 100,
            cache_write: 20,
            reasoning: 0,
        },
    );
    insert_claude_span(
        &conn,
        "sp2",
        T0 + 1_500_000_000,
        "k",
        RoleTokenUsage {
            input: 100,
            output: 50,
            cache_read: 300,
            cache_write: 10,
            reasoning: 0,
        },
    );
    insert_claude_span(
        &conn,
        "sp3",
        T0,
        "other",
        RoleTokenUsage {
            input: 10,
            output: 10,
            cache_read: 10,
            cache_write: 10,
            reasoning: 0,
        },
    );

    let resp = query_cache_economics(&conn, Some(T0), Some(END), BUCKET).ok().unwrap();
    let k = find_model(&resp, "k");
    assert_eq!(k.cache_read_tokens, 400);
    assert_eq!(k.cache_write_tokens, 30);
    assert_eq!(k.input_tokens, 800);
    assert!((rate(&k.hit_rate).unwrap() - 400.0 / 1200.0).abs() < 1e-12);
    assert!((rate(&k.read_write_ratio).unwrap() - 400.0 / 30.0).abs() < 1e-12);

    let other = find_model(&resp, "other");
    assert_eq!(other.cache_read_tokens, 10);
}

#[test]
fn test_cache_economics_same_model_across_sources() {
    let conn = setup_test_db();

    insert_metric_row(
        &conn,
        "opencode.token.usage",
        T0 - 10,
        0,
        &opencode_attrs("x", "cacheRead", "s1"),
    );
    insert_metric_row(
        &conn,
        "opencode.token.usage",
        T0,
        100,
        &opencode_attrs("x", "cacheRead", "s1"),
    );
    insert_histogram_row(
        &conn,
        "codex.turn.token_usage",
        T0,
        50.0,
        r#"{"model":"x","token_type":"cached_input"}"#,
    );
    insert_claude_span(
        &conn,
        "sp1",
        T0,
        "x",
        RoleTokenUsage {
            input: 100,
            output: 0,
            cache_read: 25,
            cache_write: 0,
            reasoning: 0,
        },
    );

    let resp = query_cache_economics(&conn, Some(T0), Some(END), BUCKET).ok().unwrap();
    let x = find_model(&resp, "x");
    assert_eq!(x.cache_read_tokens, 175);
    assert_eq!(x.input_tokens, 100);
}

#[test]
fn test_cache_economics_window_exclusion() {
    let conn = setup_test_db();

    insert_metric_row(
        &conn,
        "opencode.token.usage",
        T0 - 100,
        100,
        &opencode_attrs("m", "cacheRead", "s1"),
    );
    insert_metric_row(
        &conn,
        "opencode.token.usage",
        T0 - 50,
        500,
        &opencode_attrs("m", "cacheRead", "s1"),
    );
    insert_claude_span(
        &conn,
        "sp0",
        T0 - 1000,
        "m",
        RoleTokenUsage {
            input: 0,
            output: 0,
            cache_read: 999,
            cache_write: 0,
            reasoning: 0,
        },
    );

    let resp = query_cache_economics(&conn, Some(T0), Some(END), BUCKET).ok().unwrap();
    assert!(resp.models.is_empty());
    assert!(resp.series.is_empty());
}

#[test]
fn test_cache_hit_rate_original_query_unchanged() {
    let conn = setup_test_db();

    insert_claude_span(
        &conn,
        "sp1",
        T0,
        "k",
        RoleTokenUsage {
            input: 700,
            output: 100,
            cache_read: 100,
            cache_write: 20,
            reasoning: 0,
        },
    );
    insert_claude_span(
        &conn,
        "sp2",
        T0 + 1,
        "k",
        RoleTokenUsage {
            input: 100,
            output: 50,
            cache_read: 300,
            cache_write: 10,
            reasoning: 0,
        },
    );

    let rows = query_cache_hit_rate(&conn, Some(T0), Some(END), None);
    assert_eq!(rows.len(), 1);
    let row = &rows[0];
    assert_eq!(row.model.as_deref(), Some("k"));
    assert_eq!(row.total_input_tokens, 800);
    assert_eq!(row.total_cache_read_tokens, 400);
    assert_eq!(row.total_cache_creation_tokens, 30);
    assert!((rate(&row.hit_rate).unwrap() - 400.0 / 1200.0).abs() < 1e-12);

    let filtered = query_cache_hit_rate(&conn, Some(T0), Some(END), Some("nope"));
    assert!(filtered.is_empty());
}

#[test]
fn test_cache_economics_corrupt_rows_ignored() {
    let conn = setup_test_db();

    insert_metric_row(&conn, "opencode.token.usage", T0, 42, "not-json");
    insert_metric_row(
        &conn,
        "opencode.token.usage",
        T0,
        6,
        &opencode_attrs("m", "cacheRead", "s1"),
    );
    conn.execute(
        "INSERT INTO metrics (name, metric_type, timestamp, value_histogram, attributes)
         VALUES ('codex.turn.token_usage', 2, ?1, 'garbage', ?2)",
        (T0, r#"{"model":"c-m","token_type":"cached_input"}"#),
    )
    .unwrap();
    insert_histogram_row(
        &conn,
        "codex.turn.token_usage",
        T0,
        7.0,
        r#"{"model":"c-m","token_type":"cached_input"}"#,
    );

    let resp = query_cache_economics(&conn, Some(T0), Some(END), BUCKET).ok().unwrap();
    let m = find_model(&resp, "m");
    assert_eq!(m.cache_read_tokens, 6);
    let c = find_model(&resp, "c-m");
    assert_eq!(c.cache_read_tokens, 7);
}

#[test]
fn cache_hit_rate_definition() {
    assert_eq!(rate(&cache_hit_rate(8, 2)), Some(0.8));
}

#[test]
fn cache_hit_rate_zero_denominator_is_none() {
    assert_eq!(rate(&cache_hit_rate(0, 0)), None);
}

#[test]
fn cache_hit_rate_all_reads() {
    assert_eq!(rate(&cache_hit_rate(500, 0)), Some(1.0));
}

#[test]
fn cache_read_write_ratio_value() {
    assert_eq!(rate(&cache_read_write_ratio(8, 2)), Some(4.0));
}

#[test]
fn cache_read_write_ratio_no_writes_is_none() {
    assert_eq!(rate(&cache_read_write_ratio(100, 0)), None);
}

#[test]
fn buckets_must_have_a_length() {
    assert!(matches!(check_bucket(0), Err(StorageError::QueryError(m)) if m == "bucket_ns must be positive, got 0"));
    assert!(check_bucket(-5).is_err());
    assert!(check_bucket(1).is_ok());
    assert_eq!(start_of_bucket(1_999, 1_000), 1_000);
    assert_eq!(start_of_bucket(2_000, 1_000), 2_000);
    assert_eq!(start_of_bucket(-1, 1_000), -1 / 1_000 * 1_000);
}

#[test]
fn models_and_buckets_hold_the_same_tokens() {
    let conn = setup_test_db();
    for (i, model) in ["x", "y", "x", "z"].iter().enumerate() {
        insert_claude_span(
            &conn,
            &format!("sp{i}"),
            T0 + i as i64 * 400_000_000,
            model,
            RoleTokenUsage { input: 7 + i as u64, output: 1, cache_read: 11, cache_write: 3, reasoning: 0 },
        );
    }
    let resp = query_cache_economics(&conn, Some(T0), Some(END), BUCKET).ok().unwrap();
    let by_model: u64 = resp.models.iter().map(|m| m.input_tokens).sum();
    let by_bucket: u64 = resp.series.iter().map(|p| p.input).sum();
    assert_eq!((by_model, by_bucket), (34, 34));
    assert!(resp.series.windows(2).all(|w| w[0].timestamp < w[1].timestamp));
}

fn counter(model: &str, kind: &str, session: &str, timestamp: i64, value: i64) -> CounterRow {
    CounterRow {
        labels: vec![Some(session.to_string()), Some(model.to_string()), Some(kind.to_string())],
        timestamp,
        value: Some(value),
    }
}

fn turn(model: &str, kind: &str, tokens: u64) -> CodexUsage {
    CodexUsage { bucket: 0, model: Some(model.to_string()), token_type: kind.to_string(), tokens }
}

fn shown(r: &CacheEconomicsResponse) -> Vec<(String, u64, u64, u64)> {
    let models = r
        .models
        .iter()
        .map(|m| (m.model.clone(), m.input_tokens, m.cache_read_tokens, m.cache_write_tokens));
    let points = r.series.iter().map(|p| (p.timestamp.to_string(), p.input, p.cache_read, p.cache_write));
    models.chain(points).collect()
}

#[test]
fn the_order_of_the_rows_does_not_matter() {
    let rows = || {
        vec![
            counter("m", "input", "s", 5, 10),
            counter("m", "input", "s", 15, 30),
            counter("m", "cacheRead", "s", 7, 100),
            counter("n", "input", "t", 25, 4),
        ]
    };
    let turns = || vec![turn("m", "input", 1), turn("k", "cached_input", 2)];
    let first = cache_economics(&rows(), &vec![Some(3), None, Some(1)], &turns(), &Vec::new(), 10).ok().unwrap();
    let mut reversed = rows();
    reversed.reverse();
    let mut reversed_turns = turns();
    reversed_turns.reverse();
    let second =
        cache_economics(&reversed, &vec![Some(1), None, Some(3)], &reversed_turns, &Vec::new(), 10).ok().unwrap();
    assert_eq!(shown(&first), shown(&second));
    assert_eq!(
        shown(&first),
        vec![
            ("m".to_string(), 28, 100, 0),
            ("k".to_string(), 0, 2, 0),
            ("n".to_string(), 3, 0, 0),
            ("0".to_string(), 8, 102, 0),
            ("10".to_string(), 20, 0, 0),
            ("20".to_string(), 3, 0, 0),
        ]
    );
}

#[test]
fn totals_and_outputs_are_not_credited() {
    let prompt = vec![turn("m", "input", 1), turn("m", "cache_write_input", 5)];
    let all = vec![
        turn("m", "total", 900),
        turn("m", "input", 1),
        turn("m", "output", 70),
        turn("m", "cache_write_input", 5),
        turn("m", "reasoning_output", 8),
        turn("z", "unheard_of", 3),
    ];
    let of = |turns: &Vec<CodexUsage>| {
        shown(&cache_economics(&Vec::new(), &Vec::new(), turns, &Vec::new(), 10).ok().unwrap())
    };
    assert_eq!(of(&prompt), of(&all));
    assert_eq!(of(&all)[0], ("m".to_string(), 1, 0, 5));
}

#[test]
fn credits_that_cannot_be_counted_are_noticed() {
    let none = Vec::new();
    let fits = |turns: Vec<CodexUsage>, bucket| economics_fit(&Vec::new(), &Vec::new(), &turns, &none, bucket);
    assert!(fits(vec![turn("m", "input", u64::MAX)], 10));
    assert!(!fits(vec![turn("m", "input", u64::MAX), turn("n", "input", 1)], 10));
    assert!(fits(vec![turn("m", "input", u64::MAX), turn("n", "output", 1)], 10));
    assert!(fits(vec![turn("m", "input", u64::MAX), turn("n", "input", 1)], 0));
    let falling = vec![counter("m", "input", "s", 1, -5), counter("n", "input", "s", 1, 7)];
    assert!(!economics_fit(&falling, &vec![None, None], &Vec::new(), &none, 10));
}
