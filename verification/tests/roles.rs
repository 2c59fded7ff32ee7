//! The roles that agents play, read from a database.
use otelite::analytics::Window;
use otelite::counter::{self, CounterRow, CounterWindowDelta};
use otelite::ratio::Ratio;
use otelite::roles::{agent_roles, AgentRolesResponse, Presence};
use otelite::sources;
use otelite::sql::{SqlValue, Statement};
use rusqlite::types::Value;
use rusqlite::Connection;

const SCHEMA: &str = "
CREATE TABLE logs (
    id INTEGER PRIMARY KEY, timestamp INTEGER NOT NULL, observed_timestamp INTEGER, trace_id TEXT,
    span_id TEXT, severity_number INTEGER NOT NULL, severity_text TEXT, body TEXT, attributes TEXT,
    resource TEXT, scope TEXT
);
CREATE VIRTUAL TABLE logs_fts USING fts5(body, content='logs', content_rowid='id');
CREATE TRIGGER logs_fts_insert AFTER INSERT ON logs BEGIN
    INSERT INTO logs_fts(rowid, body) VALUES (new.id, new.body);
END;
CREATE TABLE spans (
    id INTEGER PRIMARY KEY, trace_id TEXT NOT NULL, span_id TEXT NOT NULL, parent_span_id TEXT,
    name TEXT NOT NULL, kind INTEGER NOT NULL, start_time INTEGER NOT NULL, end_time INTEGER NOT NULL,
    attributes TEXT, events TEXT, links TEXT, status_code INTEGER, status_message TEXT, resource TEXT,
    scope TEXT, created_at INTEGER DEFAULT 0
);
CREATE TABLE metrics (
    id INTEGER PRIMARY KEY, name TEXT NOT NULL, description TEXT, unit TEXT, metric_type INTEGER NOT NULL,
    timestamp INTEGER NOT NULL, value_int INTEGER, value_double REAL, value_histogram TEXT,
    value_summary TEXT, attributes TEXT, resource TEXT
);
";

fn setup_test_db() -> Connection {
    let conn = Connection::open_in_memory().unwrap();
    conn.execute_batch(SCHEMA).unwrap();
    conn
}

fn bind(value: &SqlValue) -> Value {
    match value {
        SqlValue::Null => Value::Null,
        SqlValue::Integer(n) => Value::Integer(*n),
        SqlValue::Text(t) => Value::Text(t.clone()),
        SqlValue::Number(bits) => Value::Real(f64::from_bits(*bits)),
    }
}

/// Runs a statement and returns its rows.
fn run(conn: &Connection, s: &Statement) -> Vec<Vec<Value>> {
    let mut stmt = conn.prepare(&s.sql).unwrap();
    let columns = stmt.column_count();
    let rows = stmt
        .query_map(rusqlite::params_from_iter(s.values.iter().map(bind)), |row| {
            (0..columns).map(|i| row.get::<_, Value>(i)).collect::<Result<Vec<_>, _>>()
        })
        .unwrap();
    rows.map(|r| r.unwrap()).collect()
}

#[allow(dead_code)]
fn integer(v: &Value) -> i64 {
    match v {
        Value::Integer(n) => *n,
        other => panic!("no integer: {:?}", other),
    }
}

#[allow(dead_code)]
fn optional_integer(v: &Value) -> Option<i64> {
    match v {
        Value::Null => None,
        other => Some(integer(other)),
    }
}

#[allow(dead_code)]
fn number(v: &Value) -> f64 {
    match v {
        Value::Real(x) => *x,
        Value::Integer(n) => *n as f64,
        other => panic!("no number: {:?}", other),
    }
}

#[allow(dead_code)]
fn text(v: &Value) -> String {
    match v {
        Value::Text(t) => t.clone(),
        other => panic!("no text: {:?}", other),
    }
}

#[allow(dead_code)]
fn optional_text(v: &Value) -> Option<String> {
    match v {
        Value::Null => None,
        other => Some(text(other)),
    }
}

fn window(start: Option<i64>, end: Option<i64>) -> Window {
    Window { start, end }
}

fn counter_rows(rows: &[Vec<Value>]) -> Vec<CounterRow> {
    rows.iter()
        .map(|r| {
            let labels = r.len() - 2;
            CounterRow {
                labels: r[..labels].iter().map(optional_text).collect(),
                timestamp: integer(&r[labels]),
                value: optional_integer(&r[labels + 1]),
            }
        })
        .collect()
}

fn baseline(conn: &Connection, name: &str, paths: &Vec<String>, labels: &Vec<Option<String>>, start: Option<i64>) -> Option<i64> {
    let s = sources::query_counter_baseline(name, paths, labels, start?);
    run(conn, &s).first().and_then(|r| optional_integer(&r[0]))
}

fn window_deltas(
    conn: &Connection,
    name: &str,
    paths: &Vec<String>,
    start: Option<i64>,
    end: Option<i64>,
) -> Vec<CounterWindowDelta> {
    let rows = counter_rows(&run(conn, &sources::query_counter_window(name, paths, window(start, end))));
    let series = counter::last_values(&rows);
    let baselines: Vec<Option<i64>> =
        series.iter().map(|s| baseline(conn, name, paths, &s.labels, start)).collect();
    counter::counter_window_deltas(&series, &baselines)
}

fn rate(r: &Option<Ratio>) -> Option<f64> {
    r.as_ref().map(|r| r.numerator as f64 / r.denominator as f64)
}

fn pct(r: &Option<Ratio>) -> Option<f64> {
    rate(r).map(|x| x * 100.0)
}

fn query_agent_roles(conn: &Connection, start: Option<i64>, end: Option<i64>) -> AgentRolesResponse {
    let deltas = window_deltas(conn, sources::TOKEN_COUNTER, &sources::token_label_paths(), start, end);
    let presence: Vec<Presence> = run(conn, &sources::query_agent_roles(window(start, end)).presence)
        .iter()
        .map(|r| Presence {
            role: optional_text(&r[0]),
            model: optional_text(&r[1]),
            session: optional_text(&r[2]),
        })
        .collect();
    agent_roles(&deltas, &presence)
}

const T0: i64 = 1_700_000_000_000_000_000;

fn insert_metric_row(conn: &Connection, name: &str, timestamp: i64, value: i64, attributes: &str) {
    conn.execute(
        "INSERT INTO metrics (name, metric_type, timestamp, value_int, attributes)
         VALUES (?1, 1, ?2, ?3, ?4)",
        (name, timestamp, value, attributes),
    )
    .unwrap();
}

fn token_attrs(agent: Option<&str>, model: &str, token_type: &str, session: &str) -> String {
    match agent {
        Some(a) => format!(
            r#"{{"agent":"{a}","model":"{model}","type":"{token_type}","session.id":"{session}"}}"#
        ),
        None => format!(r#"{{"model":"{model}","type":"{token_type}","session.id":"{session}"}}"#),
    }
}

fn model_usage_attrs(agent: Option<&str>, model: &str, session: &str) -> String {
    match agent {
        Some(a) => format!(r#"{{"agent":"{a}","model":"{model}","session.id":"{session}"}}"#),
        None => format!(r#"{{"model":"{model}","session.id":"{session}"}}"#),
    }
}

#[test]
fn test_agent_roles_empty() {
    let conn = setup_test_db();
    let resp = query_agent_roles(&conn, None, None);
    assert!(resp.roles.is_empty());
    assert!(pct(&resp.unknown_share).is_none());
    assert_eq!(resp.agents_covered, vec!["opencode".to_string()]);
}

#[test]
fn test_agent_roles_aggregation() {
    let conn = setup_test_db();

    insert_metric_row(
        &conn,
        "opencode.token.usage",
        T0,
        100,
        &token_attrs(Some("orchestrator"), "model-a", "input", "s1"),
    );
    insert_metric_row(
        &conn,
        "opencode.token.usage",
        T0 + 2,
        300,
        &token_attrs(Some("orchestrator"), "model-a", "input", "s1"),
    );
    insert_metric_row(
        &conn,
        "opencode.token.usage",
        T0 + 2,
        50,
        &token_attrs(Some("orchestrator"), "model-a", "output", "s1"),
    );
    insert_metric_row(
        &conn,
        "opencode.token.usage",
        T0,
        0,
        &token_attrs(Some("orchestrator"), "model-a", "cacheRead", "s2"),
    );
    insert_metric_row(
        &conn,
        "opencode.token.usage",
        T0 + 2,
        1000,
        &token_attrs(Some("orchestrator"), "model-a", "cacheRead", "s2"),
    );
    insert_metric_row(
        &conn,
        "opencode.token.usage",
        T0,
        0,
        &token_attrs(Some("auditor-deep"), "model-b", "reasoning", "s3"),
    );
    insert_metric_row(
        &conn,
        "opencode.token.usage",
        T0 + 2,
        50,
        &token_attrs(Some("auditor-deep"), "model-b", "reasoning", "s3"),
    );

    insert_metric_row(
        &conn,
        "opencode.model.usage",
        T0 + 1,
        0,
        &model_usage_attrs(Some("orchestrator"), "model-a", "s1"),
    );
    insert_metric_row(
        &conn,
        "opencode.model.usage",
        T0 + 1,
        0,
        &model_usage_attrs(Some("orchestrator"), "model-b", "s2"),
    );
    insert_metric_row(
        &conn,
        "opencode.model.usage",
        T0 + 1,
        0,
        &model_usage_attrs(Some("auditor-deep"), "model-b", "s3"),
    );

    let resp = query_agent_roles(&conn, Some(T0), Some(T0 + 2));
    assert_eq!(resp.roles.len(), 2);

    let orch = &resp.roles[0];
    assert_eq!(orch.role, "orchestrator");
    assert_eq!(orch.tokens.input, 300);
    assert_eq!(orch.tokens.output, 50);
    assert_eq!(orch.tokens.cache_read, 1000);
    assert_eq!(orch.tokens.cache_write, 0);
    assert_eq!(orch.tokens.reasoning, 0);
    assert_eq!(orch.sessions, 2, "s1 + s2");
    assert!((pct(&orch.share).unwrap() - 1350.0 / 1400.0 * 100.0).abs() < 1e-9);
    assert_eq!(orch.top_models[0].name, "model-a");
    assert_eq!(orch.top_models[0].tokens.input, 300);

    let auditor = &resp.roles[1];
    assert_eq!(auditor.role, "auditor-deep");
    assert_eq!(auditor.tokens.reasoning, 50);
    assert_eq!(auditor.sessions, 1);
}

#[test]
fn test_agent_roles_window_excludes_out_of_window_activity() {
    let conn = setup_test_db();
    insert_metric_row(
        &conn,
        "opencode.token.usage",
        T0 + 10,
        500,
        &token_attrs(Some("orchestrator"), "model-a", "input", "s1"),
    );
    insert_metric_row(
        &conn,
        "opencode.model.usage",
        T0 + 10,
        0,
        &model_usage_attrs(Some("orchestrator"), "model-a", "s1"),
    );

    let resp = query_agent_roles(&conn, Some(T0), Some(T0 + 2));
    assert!(resp.roles.is_empty());
}

#[test]
fn test_agent_roles_missing_agent_label_is_unknown() {
    let conn = setup_test_db();
    insert_metric_row(
        &conn,
        "opencode.token.usage",
        T0,
        0,
        &token_attrs(None, "model-a", "input", "s1"),
    );
    insert_metric_row(
        &conn,
        "opencode.token.usage",
        T0 + 2,
        80,
        &token_attrs(None, "model-a", "input", "s1"),
    );
    insert_metric_row(
        &conn,
        "opencode.model.usage",
        T0 + 1,
        0,
        &model_usage_attrs(None, "model-a", "s1"),
    );

    let resp = query_agent_roles(&conn, Some(T0), Some(T0 + 2));
    assert_eq!(resp.roles.len(), 1);
    assert_eq!(resp.roles[0].role, "unknown");
    assert_eq!(resp.roles[0].tokens.input, 80);
    assert_eq!(pct(&resp.unknown_share), Some(100.0));
}

#[test]
fn test_agent_roles_ignores_unknown_token_types() {
    let conn = setup_test_db();
    insert_metric_row(
        &conn,
        "opencode.token.usage",
        T0,
        0,
        &token_attrs(Some("orchestrator"), "model-a", "weird", "s1"),
    );
    insert_metric_row(
        &conn,
        "opencode.token.usage",
        T0 + 2,
        999,
        &token_attrs(Some("orchestrator"), "model-a", "weird", "s1"),
    );

    let resp = query_agent_roles(&conn, Some(T0), Some(T0 + 2));
    assert_eq!(resp.roles.len(), 1, "role row exists via the token delta");
    assert_eq!(
        resp.roles[0].tokens.total(),
        0,
        "unknown token type must not be counted"
    );
    assert!(pct(&resp.unknown_share).is_none());
}

#[test]
fn test_agent_roles_malformed_attributes_do_not_raise() {
    let conn = setup_test_db();
    insert_metric_row(&conn, "opencode.token.usage", T0, 100, "{corrupt");
    insert_metric_row(
        &conn,
        "opencode.token.usage",
        T0 + 2,
        200,
        &token_attrs(Some("orchestrator"), "model-a", "input", "s1"),
    );
    insert_metric_row(&conn, "opencode.model.usage", T0 + 1, 0, "{corrupt");

    let resp = query_agent_roles(&conn, Some(T0), Some(T0 + 2));
    let unknown = resp.roles.iter().find(|r| r.role == "unknown");
    assert!(unknown.is_none() || unknown.unwrap().tokens.total() == 0);
    let orch = resp
        .roles
        .iter()
        .find(|r| r.role == "orchestrator")
        .expect("valid row still aggregated");
    assert_eq!(orch.tokens.input, 200);
}

#[test]
fn role_shares_add_up_to_one() {
    let conn = setup_test_db();
    for (agent, tokens) in [("a", 10), ("b", 20), ("c", 30)] {
        insert_metric_row(
            &conn,
            "opencode.token.usage",
            T0,
            tokens,
            &token_attrs(Some(agent), "m", "output", "s"),
        );
    }
    let resp = query_agent_roles(&conn, Some(T0), Some(T0));
    let names: Vec<&str> = resp.roles.iter().map(|r| r.role.as_str()).collect();
    assert_eq!(names, vec!["c", "b", "a"]);
    let numerators: u64 = resp.roles.iter().map(|r| r.share.as_ref().unwrap().numerator).sum();
    assert_eq!(numerators, 60);
    assert!(resp.roles.iter().all(|r| r.share.as_ref().unwrap().denominator == 60));
}
