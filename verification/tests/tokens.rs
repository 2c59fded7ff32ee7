//! Token counters, and the attribution of tokens.
use otelite::analytics::Window;
use otelite::counter::{self, CounterRow, CounterWindowDelta, Sample, SeriesLast};
use otelite::sources;
use otelite::sql::{SqlValue, Statement};
use otelite::tally::{count_distinct, rank_tokens, tally_tokens};
use otelite::tokens::{
    add_opencode_tokens, attribute_model_to_providers, find_codex_category, find_opencode_category, largest_remainder_split, Category,
    RoleTokenUsage,
};
use rusqlite::types::Value;
use rusqlite::Connection;

const SCHEMA: &str = "
CREATE TABLE logs (
    id INTEGER PRIMARY KEY, timestamp INTEGER NOT NULL, observed_timestamp INTEGER, trace_id TEXT,
    span_id TEXT, severity_number INTEGER NOT NULL, severity_text TEXT, body TEXT, attributes TEXT,
    resource TEXT, scope TEXT
);
CREATE VIRTUAL TABLE logs_fts USING fts5(body, content='logs', content_rowid='id');
CREATE TRIGGER logs_fts_insert AFTER INSERT ON logs BEGIN
    INSERT INTO logs_fts(rowid, body) VALUES (new.id, new.body);
END;
CREATE TABLE spans (
    id INTEGER PRIMARY KEY, trace_id TEXT NOT NULL, span_id TEXT NOT NULL, parent_span_id TEXT,
    name TEXT NOT NULL, kind INTEGER NOT NULL, start_time INTEGER NOT NULL, end_time INTEGER NOT NULL,
    attributes TEXT, events TEXT, links TEXT, status_code INTEGER, status_message TEXT, resource TEXT,
    scope TEXT, created_at INTEGER DEFAULT 0
);
CREATE TABLE metrics (
    id INTEGER PRIMARY KEY, name TEXT NOT NULL, description TEXT, unit TEXT, metric_type INTEGER NOT NULL,
    timestamp INTEGER NOT NULL, value_int INTEGER, value_double REAL, value_histogram TEXT,
    value_summary TEXT, attributes TEXT, resource TEXT
);
";

fn setup_test_db() -> Connection {
    let conn = Connection::open_in_memory().unwrap();
    conn.execute_batch(SCHEMA).unwrap();
    conn
}

fn bind(value: &SqlValue) -> Value {
    match value {
        SqlValue::Null => Value::Null,
        SqlValue::Integer(n) => Value::Integer(*n),
        SqlValue::Text(t) => Value::Text(t.clone()),
        SqlValue::Number(bits) => Value::Real(f64::from_bits(*bits)),
    }
}

/// Runs a statement and returns its rows.
fn run(conn: &Connection, s: &Statement) -> Vec<Vec<Value>> {
    let mut stmt = conn.prepare(&s.sql).unwrap();
    let columns = stmt.column_count();
    let rows = stmt
        .query_map(rusqlite::params_from_iter(s.values.iter().map(bind)), |row| {
            (0..columns).map(|i| row.get::<_, Value>(i)).collect::<Result<Vec<_>, _>>()
        })
        .unwrap();
    rows.map(|r| r.unwrap()).collect()
}

#[allow(dead_code)]
fn integer(v: &Value) -> i64 {
    match v {
        Value::Integer(n) => *n,
        other => panic!("no integer: {:?}", other),
    }
}

#[allow(dead_code)]
fn optional_integer(v: &Value) -> Option<i64> {
    match v {
        Value::Null => None,
        other => Some(integer(other)),
    }
}

#[allow(dead_code)]
fn number(v: &Value) -> f64 {
    match v {
        Value::Real(x) => *x,
        Value::Integer(n) => *n as f64,
        other => panic!("no number: {:?}", other),
    }
}

#[allow(dead_code)]
fn text(v: &Value) -> String {
    match v {
        Value::Text(t) => t.clone(),
        other => panic!("no text: {:?}", other),
    }
}

#[allow(dead_code)]
fn optional_text(v: &Value) -> Option<String> {
    match v {
        Value::Null => None,
        other => Some(text(other)),
    }
}

fn window(start: Option<i64>, end: Option<i64>) -> Window {
    Window { start, end }
}

fn counter_rows(rows: &[Vec<Value>]) -> Vec<CounterRow> {
    rows.iter()
        .map(|r| {
            let labels = r.len() - 2;
            CounterRow {
                labels: r[..labels].iter().map(optional_text).collect(),
                timestamp: integer(&r[labels]),
                value: optional_integer(&r[labels + 1]),
            }
        })
        .collect()
}

fn baseline(conn: &Connection, name: &str, paths: &Vec<String>, labels: &Vec<Option<String>>, start: Option<i64>) -> Option<i64> {
    let s = sources::query_counter_baseline(name, paths, labels, start?);
    run(conn, &s).first().and_then(|r| optional_integer(&r[0]))
}

fn window_deltas(
    conn: &Connection,
    name: &str,
    paths: &Vec<String>,
    start: Option<i64>,
    end: Option<i64>,
) -> Vec<CounterWindowDelta> {
    let rows = counter_rows(&run(conn, &sources::query_counter_window(name, paths, window(start, end))));
    let series = counter::last_values(&rows);
    let baselines: Vec<Option<i64>> =
        series.iter().map(|s| baseline(conn, name, paths, &s.labels, start)).collect();
    counter::counter_window_deltas(&series, &baselines)
}

fn counter_window_deltas(
    conn: &Connection,
    name: &str,
    paths: &[&str],
    start: Option<i64>,
    end: Option<i64>,
) -> Vec<CounterWindowDelta> {
    let paths: Vec<String> = paths.iter().map(|p| p.to_string()).collect();
    window_deltas(conn, name, &paths, start, end)
}

fn insert_counter_row(
    conn: &Connection,
    name: &str,
    timestamp: i64,
    value: i64,
    attributes: &str,
) {
    conn.execute(
        "INSERT INTO metrics (
            name, metric_type, timestamp, value_int, attributes
        ) VALUES (?1, 1, ?2, ?3, ?4)",
        (name, timestamp, value, attributes),
    )
    .unwrap();
}

fn label_key(labels: &[Option<String>]) -> String {
    labels
        .iter()
        .map(|l| l.clone().unwrap_or_else(|| String::from("(null)")))
        .collect::<Vec<_>>()
        .join("|")
}

fn deltas_by_label(deltas: Vec<CounterWindowDelta>) -> std::collections::HashMap<String, f64> {
    deltas
        .into_iter()
        .map(|d| (label_key(&d.labels), d.delta as f64))
        .collect()
}

const COUNTER_TEST: &str = "opencode.token.usage";
const T0: i64 = 1_700_000_000_000_000_000;

#[test]
fn counter_window_deltas_monotonic_series() {
    let conn = setup_test_db();
    let a = r#"{"agent":"a","model":"m","type":"input","session.id":"s1"}"#;
    insert_counter_row(&conn, COUNTER_TEST, T0, 100, a);
    insert_counter_row(&conn, COUNTER_TEST, T0 + 1, 150, a);
    insert_counter_row(&conn, COUNTER_TEST, T0 + 2, 250, a);

    let deltas = counter_window_deltas(
        &conn,
        COUNTER_TEST,
        &["$.agent"],
        Some(T0 + 1),
        Some(T0 + 2),
    );
    let by_label = deltas_by_label(deltas);
    assert_eq!(by_label.get("a"), Some(&150.0));

    let deltas =
        counter_window_deltas(&conn, COUNTER_TEST, &["$.agent"], Some(T0), Some(T0 + 2));
    let by_label = deltas_by_label(deltas);
    assert_eq!(by_label.get("a"), Some(&250.0));
}

#[test]
fn counter_window_deltas_duplicate_timestamp_takes_max() {
    let conn = setup_test_db();
    let a = r#"{"agent":"a","model":"m","type":"input","session.id":"s1"}"#;
    insert_counter_row(&conn, COUNTER_TEST, T0, 300, a);
    insert_counter_row(&conn, COUNTER_TEST, T0 + 1, 400, a);
    insert_counter_row(&conn, COUNTER_TEST, T0 + 1, 500, a);

    let deltas = counter_window_deltas(
        &conn,
        COUNTER_TEST,
        &["$.agent"],
        Some(T0 + 1),
        Some(T0 + 1),
    );
    let by_label = deltas_by_label(deltas);
    assert_eq!(
        by_label.get("a"),
        Some(&200.0),
        "duplicate-timestamp max (500) minus baseline (300)"
    );
}

#[test]
fn counter_window_deltas_reset_restarts_from_zero() {
    let conn = setup_test_db();
    let a = r#"{"agent":"a","model":"m","type":"input","session.id":"s1"}"#;
    insert_counter_row(&conn, COUNTER_TEST, T0, 900, a);
    insert_counter_row(&conn, COUNTER_TEST, T0 + 1, 50, a);
    insert_counter_row(&conn, COUNTER_TEST, T0 + 2, 120, a);

    let deltas = counter_window_deltas(
        &conn,
        COUNTER_TEST,
        &["$.agent"],
        Some(T0 + 1),
        Some(T0 + 2),
    );
    let by_label = deltas_by_label(deltas);
    assert_eq!(
        by_label.get("a"),
        Some(&120.0),
        "reset -> delta is in-window last value"
    );
}

#[test]
fn counter_window_deltas_new_series_in_window() {
    let conn = setup_test_db();
    let b = r#"{"agent":"b","model":"m","type":"input","session.id":"s2"}"#;
    insert_counter_row(&conn, COUNTER_TEST, T0 + 1, 70, b);
    insert_counter_row(&conn, COUNTER_TEST, T0 + 2, 200, b);

    let deltas = counter_window_deltas(
        &conn,
        COUNTER_TEST,
        &["$.agent"],
        Some(T0 + 1),
        Some(T0 + 2),
    );
    let by_label = deltas_by_label(deltas);
    assert_eq!(by_label.get("b"), Some(&200.0));
}

#[test]
fn counter_window_deltas_no_start_returns_last_value() {
    let conn = setup_test_db();
    let a = r#"{"agent":"a","model":"m","type":"input","session.id":"s1"}"#;
    insert_counter_row(&conn, COUNTER_TEST, T0, 100, a);
    insert_counter_row(&conn, COUNTER_TEST, T0 + 1, 300, a);

    let deltas =
        counter_window_deltas(&conn, COUNTER_TEST, &["$.agent"], None, Some(T0 + 1));
    let by_label = deltas_by_label(deltas);
    assert_eq!(by_label.get("a"), Some(&300.0));

    let deltas =
        counter_window_deltas(&conn, COUNTER_TEST, &["$.agent"], None, Some(T0));
    let by_label = deltas_by_label(deltas);
    assert_eq!(by_label.get("a"), Some(&100.0));
}

#[test]
fn counter_window_deltas_zero_delta_series_dropped() {
    let conn = setup_test_db();
    let c = r#"{"agent":"c","model":"m","type":"input","session.id":"s3"}"#;
    insert_counter_row(&conn, COUNTER_TEST, T0, 500, c);
    insert_counter_row(&conn, COUNTER_TEST, T0 + 1, 500, c);

    let deltas = counter_window_deltas(
        &conn,
        COUNTER_TEST,
        &["$.agent"],
        Some(T0 + 1),
        Some(T0 + 1),
    );
    assert!(deltas.is_empty(), "zero-delta series must be dropped");
}

#[test]
fn counter_window_deltas_malformed_attributes_do_not_raise() {
    let conn = setup_test_db();
    insert_counter_row(&conn, COUNTER_TEST, T0, 100, "{not json");
    insert_counter_row(&conn, COUNTER_TEST, T0 + 1, 200, "{not json");

    let deltas = counter_window_deltas(
        &conn,
        COUNTER_TEST,
        &["$.agent"],
        Some(T0 + 1),
        Some(T0 + 1),
    );
    let by_label = deltas_by_label(deltas);
    assert_eq!(by_label.get("(null)"), Some(&100.0));
}



fn sample_tokens() -> RoleTokenUsage {
    RoleTokenUsage {
        input: 10,
        output: 20,
        cache_read: 30,
        cache_write: 40,
        reasoning: 50,
    }
}

#[test]
fn largest_remainder_split_single_bucket_keeps_all() {
    let out = largest_remainder_split(100, &[("p1".to_string(), 7)]);
    assert_eq!(out, vec![("p1".to_string(), 100)]);
}

#[test]
fn largest_remainder_split_proportional_and_exact() {
    let out = largest_remainder_split(100, &[("a".to_string(), 1), ("b".to_string(), 2)]);
    assert_eq!(out, vec![("a".to_string(), 33), ("b".to_string(), 67)]);
    assert_eq!(out.iter().map(|(_, v)| *v).sum::<u64>(), 100);

    let out = largest_remainder_split(100, &[("a".to_string(), 1), ("b".to_string(), 1)]);
    assert_eq!(out, vec![("a".to_string(), 50), ("b".to_string(), 50)]);

    let out = largest_remainder_split(0, &[("a".to_string(), 1), ("b".to_string(), 2)]);
    assert_eq!(out, vec![("a".to_string(), 0), ("b".to_string(), 0)]);

    let out = largest_remainder_split(10, &[("a".to_string(), 0), ("b".to_string(), 0)]);
    assert_eq!(out, vec![("a".to_string(), 0), ("b".to_string(), 0)]);

    assert!(largest_remainder_split(10, &[]).is_empty());
}

#[test]
fn attribute_model_direct_single_provider() {
    let out =
        attribute_model_to_providers(sample_tokens(), &[("bv".to_string(), 12)]);
    assert_eq!(out.len(), 1);
    assert_eq!(out[0].provider, "bv");
    assert!(out[0].tokens == sample_tokens(), "single provider keeps everything");
}

#[test]
fn attribute_model_split_across_providers() {
    let out = attribute_model_to_providers(
        sample_tokens(),
        &[("bv".to_string(), 3), ("omlx".to_string(), 3)],
    );
    assert_eq!(out.len(), 2);
    let total: u64 = out.iter().map(|p| p.tokens.total()).sum();
    assert_eq!(total, 150, "split must preserve the token total");
    for t in out.iter().map(|p| &p.tokens) {
        assert_eq!(t.input, 5);
        assert_eq!(t.output, 10);
        assert_eq!(t.cache_read, 15);
        assert_eq!(t.cache_write, 20);
        assert_eq!(t.reasoning, 25);
    }
}

#[test]
fn attribute_model_no_providers_yields_empty() {
    let out = attribute_model_to_providers(sample_tokens(), &[]);
    assert!(out.is_empty());
}

#[test]
fn splits_of_huge_totals_are_exact() {
    let weights = [("a".to_string(), 1), ("b".to_string(), 1), ("c".to_string(), 1)];
    let parts = largest_remainder_split(u64::MAX, &weights);
    let sum: u128 = parts.iter().map(|p| p.1 as u128).sum();
    assert_eq!(sum, u64::MAX as u128);
    let parts = largest_remainder_split(10, &weights);
    assert_eq!(parts.iter().map(|p| p.1).collect::<Vec<_>>(), vec![4, 3, 3]);
}

#[test]
fn windows_side_by_side_add_up() {
    let series = |value| vec![SeriesLast { labels: vec![Some("a".to_string())], last: Sample { timestamp: 1, value } }];
    let whole = counter::counter_window_deltas(&series(900), &vec![Some(100)]);
    let first = counter::counter_window_deltas(&series(400), &vec![Some(100)]);
    let second = counter::counter_window_deltas(&series(900), &vec![Some(400)]);
    assert_eq!(whole[0].delta, first[0].delta + second[0].delta);
    assert!(counter::counter_window_deltas(&series(-5), &vec![None]).is_empty());
}

#[test]
fn kinds_of_tokens_are_known_by_name() {
    let some = |s: &str| Some(s.to_string());
    assert!(matches!(find_opencode_category(&some("cacheRead")), Some(Category::CacheRead)));
    assert!(matches!(find_opencode_category(&some("cacheCreation")), Some(Category::CacheWrite)));
    assert!(find_opencode_category(&some("total")).is_none());
    assert!(find_opencode_category(&None).is_none());
    assert!(matches!(find_codex_category(&some("reasoning_output")), Some(Category::Reasoning)));
    assert!(find_codex_category(&some("total")).is_none());
}

#[test]
fn tallies_keep_the_total() {
    let names: Vec<String> = ["x", "y", "x"].iter().map(|s| s.to_string()).collect();
    let one = |input| RoleTokenUsage { input, output: 1, cache_read: 0, cache_write: 0, reasoning: 0 };
    let named = tally_tokens(&names, &vec![one(1), one(50), one(2)]);
    assert_eq!(named.iter().map(|n| n.tokens.total()).sum::<u64>(), 56);
    let ranked = rank_tokens(&named);
    assert_eq!(ranked[0].name, "y");
    assert_eq!(ranked[1].tokens.input, 3);
    assert_eq!(count_distinct(&names), 2);
}

#[test]
fn counted_tokens_are_added_by_kind() {
    let mut t = sample_tokens();
    for (kind, v) in [("input", 1), ("output", 2), ("cacheRead", 3), ("cacheCreation", 4), ("reasoning", 5), ("x", 6)] {
        add_opencode_tokens(&mut t, &Some(kind.to_string()), v);
    }
    add_opencode_tokens(&mut t, &None, 7);
    assert_eq!((t.input, t.output, t.cache_read, t.cache_write, t.reasoning), (11, 22, 33, 44, 55));
}
