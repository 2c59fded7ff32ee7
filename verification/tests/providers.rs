//! The mix of providers and models, read from a database.
use otelite::analytics::{TokenExprs, Window};
use otelite::counter::{self, CounterRow, CounterWindowDelta};
use otelite::providers::{
    provider_mix, CodexTurn, ProviderMixEntry, ProviderMixResponse, ProviderModelEntry, ProviderRow, RequestMix,
};
use otelite::ratio::Ratio;
use otelite::sources;
use otelite::sql::{SqlValue, Statement};
use otelite::tokens::RoleTokenUsage;
use rusqlite::types::Value;
use rusqlite::Connection;

const SCHEMA: &str = "
CREATE TABLE logs (
    id INTEGER PRIMARY KEY, timestamp INTEGER NOT NULL, observed_timestamp INTEGER, trace_id TEXT,
    span_id TEXT, severity_number INTEGER NOT NULL, severity_text TEXT, body TEXT, attributes TEXT,
    resource TEXT, scope TEXT
);
CREATE VIRTUAL TABLE logs_fts USING fts5(body, content='logs', content_rowid='id');
CREATE TRIGGER logs_fts_insert AFTER INSERT ON logs BEGIN
    INSERT INTO logs_fts(rowid, body) VALUES (new.id, new.body);
END;
CREATE TABLE spans (
    id INTEGER PRIMARY KEY, trace_id TEXT NOT NULL, span_id TEXT NOT NULL, parent_span_id TEXT,
    name TEXT NOT NULL, kind INTEGER NOT NULL, start_time INTEGER NOT NULL, end_time INTEGER NOT NULL,
    attributes TEXT, events TEXT, links TEXT, status_code INTEGER, status_message TEXT, resource TEXT,
    scope TEXT, created_at INTEGER DEFAULT 0
);
CREATE TABLE metrics (
    id INTEGER PRIMARY KEY, name TEXT NOT NULL, description TEXT, unit TEXT, metric_type INTEGER NOT NULL,
    timestamp INTEGER NOT NULL, value_int INTEGER, value_double REAL, value_histogram TEXT,
    value_summary TEXT, attributes TEXT, resource TEXT
);
";

fn setup_test_db() -> Connection {
    let conn = Connection::open_in_memory().unwrap();
    conn.execute_batch(SCHEMA).unwrap();
    conn
}

fn bind(value: &SqlValue) -> Value {
    match value {
        SqlValue::Null => Value::Null,
        SqlValue::Integer(n) => Value::Integer(*n),
        SqlValue::Text(t) => Value::Text(t.clone()),
        SqlValue::Number(bits) => Value::Real(f64::from_bits(*bits)),
    }
}

/// Runs a statement and returns its rows.
fn run(conn: &Connection, s: &Statement) -> Vec<Vec<Value>> {
    let mut stmt = conn.prepare(&s.sql).unwrap();
    let columns = stmt.column_count();
    let rows = stmt
        .query_map(rusqlite::params_from_iter(s.values.iter().map(bind)), |row| {
            (0..columns).map(|i| row.get::<_, Value>(i)).collect::<Result<Vec<_>, _>>()
        })
        .unwrap();
    rows.map(|r| r.unwrap()).collect()
}

#[allow(dead_code)]
fn integer(v: &Value) -> i64 {
    match v {
        Value::Integer(n) => *n,
        other => panic!("no integer: {:?}", other),
    }
}

#[allow(dead_code)]
fn optional_integer(v: &Value) -> Option<i64> {
    match v {
        Value::Null => None,
        other => Some(integer(other)),
    }
}

#[allow(dead_code)]
fn number(v: &Value) -> f64 {
    match v {
        Value::Real(x) => *x,
        Value::Integer(n) => *n as f64,
        other => panic!("no number: {:?}", other),
    }
}

#[allow(dead_code)]
fn text(v: &Value) -> String {
    match v {
        Value::Text(t) => t.clone(),
        other => panic!("no text: {:?}", other),
    }
}

#[allow(dead_code)]
fn optional_text(v: &Value) -> Option<String> {
    match v {
        Value::Null => None,
        other => Some(text(other)),
    }
}

fn first_of(keys: &[&str]) -> String {
    let parts: Vec<String> =
        keys.iter().map(|k| format!("json_extract(attributes, '$.\"{}\"')", k)).collect();
    format!("COALESCE({}, NULL)", parts.join(", "))
}

fn count_of(keys: &[&str]) -> String {
    let parts: Vec<String> = keys
        .iter()
        .map(|k| format!("CAST(json_extract(attributes, '$.\"{}\"') AS INTEGER)", k))
        .collect();
    format!("COALESCE({}, NULL)", parts.join(", "))
}

/// The attribute names that the tests use.
fn vocabulary() -> TokenExprs {
    let request = ["gen_ai.request.model", "llm.model_name", "model"];
    let response = ["gen_ai.response.model", "llm.response.model"];
    let both = ["gen_ai.request.model", "llm.model_name", "model", "gen_ai.response.model", "llm.response.model"];
    let system = ["gen_ai.system", "llm.system"];
    let guard = format!(
        "json_valid(attributes) AND (name = 'claude_code.llm_request' OR {} IS NOT NULL OR {} IS NOT NULL)",
        first_of(&system),
        first_of(&both)
    );
    TokenExprs {
        input: count_of(&["gen_ai.usage.input_tokens", "input_tokens"]),
        output: count_of(&["gen_ai.usage.output_tokens", "output_tokens"]),
        cache_creation: count_of(&["gen_ai.usage.cache_creation_tokens", "cache_creation_tokens"]),
        cache_read: count_of(&["gen_ai.usage.cache_read_tokens", "cache_read_tokens"]),
        model: first_of(&both),
        request_model: first_of(&request),
        response_model: first_of(&response),
        system: first_of(&system),
        llm_span_guard: guard.clone(),
        request_span_guard: guard,
    }
}

fn window(start: Option<i64>, end: Option<i64>) -> Window {
    Window { start, end }
}

fn counter_rows(rows: &[Vec<Value>]) -> Vec<CounterRow> {
    rows.iter()
        .map(|r| {
            let labels = r.len() - 2;
            CounterRow {
                labels: r[..labels].iter().map(optional_text).collect(),
                timestamp: integer(&r[labels]),
                value: optional_integer(&r[labels + 1]),
            }
        })
        .collect()
}

fn baseline(conn: &Connection, name: &str, paths: &Vec<String>, labels: &Vec<Option<String>>, start: Option<i64>) -> Option<i64> {
    let s = sources::query_counter_baseline(name, paths, labels, start?);
    run(conn, &s).first().and_then(|r| optional_integer(&r[0]))
}

fn window_deltas(
    conn: &Connection,
    name: &str,
    paths: &Vec<String>,
    start: Option<i64>,
    end: Option<i64>,
) -> Vec<CounterWindowDelta> {
    let rows = counter_rows(&run(conn, &sources::query_counter_window(name, paths, window(start, end))));
    let series = counter::last_values(&rows);
    let baselines: Vec<Option<i64>> =
        series.iter().map(|s| baseline(conn, name, paths, &s.labels, start)).collect();
    counter::counter_window_deltas(&series, &baselines)
}

fn rate(r: &Option<Ratio>) -> Option<f64> {
    r.as_ref().map(|r| r.numerator as f64 / r.denominator as f64)
}

fn pct(r: &Option<Ratio>) -> Option<f64> {
    rate(r).map(|x| x * 100.0)
}

fn query_provider_mix(conn: &Connection, start: Option<i64>, end: Option<i64>) -> ProviderMixResponse {
    let deltas = window_deltas(conn, sources::TOKEN_COUNTER, &sources::token_label_paths(), start, end);
    let s = sources::query_provider_mix(&vocabulary(), window(start, end));
    let rows: Vec<ProviderRow> = run(conn, &s.providers)
        .iter()
        .map(|r| ProviderRow { provider: optional_text(&r[0]), model: optional_text(&r[1]) })
        .collect();
    let turns: Vec<CodexTurn> = run(conn, &s.turns)
        .iter()
        .map(|r| CodexTurn {
            model: optional_text(&r[0]),
            token_type: optional_text(&r[1]),
            tokens: number(&r[2]) as u64,
        })
        .collect();
    let requests: Vec<RequestMix> = run(conn, &s.requests)
        .iter()
        .map(|r| RequestMix {
            model: optional_text(&r[0]),
            system: optional_text(&r[1]),
            session: optional_text(&r[2]),
            input: integer(&r[3]) as u64,
            output: integer(&r[4]) as u64,
            cache_creation: integer(&r[5]) as u64,
            cache_read: integer(&r[6]) as u64,
            calls: integer(&r[7]) as u64,
        })
        .collect();
    provider_mix(&deltas, &rows, &turns, &requests)
}

const T0: i64 = 1_700_000_000_000_000_000;

fn insert_metric_row(conn: &Connection, name: &str, timestamp: i64, value: i64, attributes: &str) {
    conn.execute(
        "INSERT INTO metrics (name, metric_type, timestamp, value_int, attributes)
         VALUES (?1, 1, ?2, ?3, ?4)",
        (name, timestamp, value, attributes),
    )
    .unwrap();
}

fn insert_histogram_row(conn: &Connection, name: &str, timestamp: i64, sum: f64, attributes: &str) {
    conn.execute(
        "INSERT INTO metrics (name, metric_type, timestamp, value_histogram, attributes)
         VALUES (?1, 2, ?2, ?3, ?4)",
        (name, timestamp, format!("[1, {sum}, []]",), attributes),
    )
    .unwrap();
}

#[allow(clippy::too_many_arguments)] // test helper: each named arg maps to one telemetry field
fn insert_claude_span(
    conn: &Connection,
    span_id: &str,
    start: i64,
    model: &str,
    system: Option<&str>,
    session: Option<&str>,
    tokens: RoleTokenUsage,
) {
    let mut attrs = format!(
        r#"{{"model":"{model}","gen_ai.request.model":"{model}","input_tokens":"{}","output_tokens":"{}","cache_creation_tokens":"{}","cache_read_tokens":"{}""#,
        tokens.input, tokens.output, tokens.cache_write, tokens.cache_read
    );
    if let Some(s) = system {
        attrs.push_str(&format!(r#","gen_ai.system":"{s}""#));
    }
    if let Some(s) = session {
        attrs.push_str(&format!(r#","session.id":"{s}""#));
    }
    attrs.push('}');
    conn.execute(
        r#"INSERT INTO spans (trace_id, span_id, name, kind, start_time, end_time, attributes, status_code)
           VALUES ('t', ?1, 'claude_code.llm_request', 0, ?2, ?2 + 1, ?3, 1)"#,
        (span_id, start, attrs),
    )
    .unwrap();
}

fn find_provider<'a>(
    resp: &'a ProviderMixResponse,
    provider: &str,
) -> &'a ProviderMixEntry {
    resp.providers
        .iter()
        .find(|p| p.provider == provider)
        .unwrap_or_else(|| panic!("no provider {provider:?}"))
}

fn find_model<'a>(
    entry: &'a ProviderMixEntry,
    model: &str,
) -> &'a ProviderModelEntry {
    entry
        .models
        .iter()
        .find(|m| m.model == model)
        .unwrap_or_else(|| panic!("no model {model:?}"))
}

#[test]
fn test_provider_mix_empty() {
    let conn = setup_test_db();
    let resp = query_provider_mix(&conn, Some(T0), Some(T0 + 2));
    assert!(resp.providers.is_empty());
    assert_eq!(resp.total_tokens, 0);
    assert_eq!(resp.method, "direct");
}

#[test]
fn test_provider_mix_opencode_attribution() {
    let conn = setup_test_db();

    let attrs = |agent: &str, model: &str, ttype: &str, sid: &str| {
        format!(r#"{{"agent":"{agent}","model":"{model}","type":"{ttype}","session.id":"{sid}"}}"#)
    };
    insert_metric_row(
        &conn,
        "opencode.token.usage",
        T0 - 10,
        0,
        &attrs("orchestrator", "model-a", "input", "s1"),
    );
    insert_metric_row(
        &conn,
        "opencode.token.usage",
        T0 + 2,
        400,
        &attrs("orchestrator", "model-a", "input", "s1"),
    );
    insert_metric_row(
        &conn,
        "opencode.token.usage",
        T0 + 2,
        50,
        &attrs("orchestrator", "model-a", "output", "s1"),
    );
    insert_metric_row(
        &conn,
        "opencode.model.usage",
        T0 + 1,
        0,
        r#"{"agent":"orchestrator","model":"model-a","provider":"bv","session.id":"s1"}"#,
    );
    insert_metric_row(
        &conn,
        "opencode.model.usage",
        T0 + 1,
        0,
        r#"{"agent":"orchestrator","model":"model-a","provider":"bv","session.id":"s1"}"#,
    );

    let resp = query_provider_mix(&conn, Some(T0), Some(T0 + 2));
    assert_eq!(resp.method, "direct", "single provider per model");
    assert_eq!(resp.total_tokens, 450);
    assert_eq!(resp.providers.len(), 1);

    let bv = find_provider(&resp, "bv");
    assert!((pct(&bv.share).unwrap() - 100.0).abs() < 1e-9);
    let model_a = find_model(bv, "model-a");
    assert_eq!(model_a.tokens.input, 400);
    assert_eq!(model_a.tokens.output, 50);
    assert_eq!(model_a.sessions, 1);
}

#[test]
fn test_provider_mix_window_excludes_out_of_window_activity() {
    let conn = setup_test_db();
    insert_metric_row(
        &conn,
        "opencode.token.usage",
        T0 + 10,
        500,
        r#"{"agent":"orchestrator","model":"model-a","type":"input","session.id":"s1"}"#,
    );
    insert_metric_row(
        &conn,
        "opencode.model.usage",
        T0 + 10,
        0,
        r#"{"model":"model-a","provider":"bv","session.id":"s1"}"#,
    );

    let resp = query_provider_mix(&conn, Some(T0), Some(T0 + 2));
    assert!(resp.providers.is_empty());
    assert_eq!(resp.total_tokens, 0);
}

#[test]
fn test_provider_mix_codex_unknown_provider_total_type_skipped() {
    let conn = setup_test_db();
    let m = |ttype: &str| format!(r#"{{"model":"gpt-5.6-terra","token_type":"{ttype}"}}"#);
    insert_histogram_row(&conn, "codex.turn.token_usage", T0, 1000.0, &m("input"));
    insert_histogram_row(&conn, "codex.turn.token_usage", T0, 200.0, &m("output"));
    insert_histogram_row(
        &conn,
        "codex.turn.token_usage",
        T0,
        3000.0,
        &m("cached_input"),
    );
    insert_histogram_row(
        &conn,
        "codex.turn.token_usage",
        T0,
        500.0,
        &m("cache_write_input"),
    );
    insert_histogram_row(
        &conn,
        "codex.turn.token_usage",
        T0,
        700.0,
        &m("reasoning_output"),
    );
    insert_histogram_row(&conn, "codex.turn.token_usage", T0, 1300.0, &m("total"));

    let resp = query_provider_mix(&conn, Some(T0), Some(T0 + 2));
    let unknown = find_provider(&resp, "(unknown)");
    let model = find_model(unknown, "gpt-5.6-terra");
    assert_eq!(model.tokens.input, 1000);
    assert_eq!(model.tokens.output, 200);
    assert_eq!(model.tokens.cache_read, 3000);
    assert_eq!(model.tokens.cache_write, 500);
    assert_eq!(model.tokens.reasoning, 700);
    assert_eq!(
        model.tokens.total(),
        5400,
        "total (1300) must not be double-counted"
    );
    assert_eq!(model.sessions, 0, "codex rows carry no session id");
}

#[test]
fn test_provider_mix_claude_system_provider() {
    let conn = setup_test_db();
    insert_claude_span(
        &conn,
        "sp1",
        T0,
        "opus-5",
        Some("anthropic"),
        Some("sess-1"),
        RoleTokenUsage {
            input: 100,
            output: 20,
            cache_read: 0,
            cache_write: 5,
            reasoning: 0,
        },
    );
    insert_claude_span(
        &conn,
        "sp2",
        T0 + 1,
        "opus-5",
        Some("anthropic"),
        Some("sess-2"),
        RoleTokenUsage {
            input: 300,
            output: 40,
            cache_read: 10,
            cache_write: 15,
            reasoning: 0,
        },
    );

    let resp = query_provider_mix(&conn, Some(T0), Some(T0 + 2));
    let anthropic = find_provider(&resp, "anthropic");
    let model = find_model(anthropic, "opus-5");
    assert_eq!(model.tokens.input, 400);
    assert_eq!(model.tokens.output, 60);
    assert_eq!(
        model.tokens.cache_write, 20,
        "cache_creation maps to cache_write"
    );
    assert_eq!(model.tokens.cache_read, 10);
    assert_eq!(model.sessions, 2);
}

#[test]
fn test_provider_mix_multi_provider_split() {
    let conn = setup_test_db();
    insert_metric_row(
        &conn,
        "opencode.token.usage",
        T0 - 10,
        0,
        r#"{"agent":"orchestrator","model":"model-x","type":"input","session.id":"s1"}"#,
    );
    insert_metric_row(
        &conn,
        "opencode.token.usage",
        T0 + 2,
        800,
        r#"{"agent":"orchestrator","model":"model-x","type":"input","session.id":"s1"}"#,
    );
    for _ in 0..2 {
        insert_metric_row(
            &conn,
            "opencode.model.usage",
            T0 + 1,
            0,
            r#"{"model":"model-x","provider":"bv","session.id":"s1"}"#,
        );
    }
    for _ in 0..6 {
        insert_metric_row(
            &conn,
            "opencode.model.usage",
            T0 + 1,
            0,
            r#"{"model":"model-x","provider":"omlx","session.id":"s1"}"#,
        );
    }

    let resp = query_provider_mix(&conn, Some(T0), Some(T0 + 2));
    assert_eq!(
        resp.method, "token-share-split",
        "a multi-provider model must flag the split method"
    );
    let bv = find_provider(&resp, "bv");
    assert_eq!(find_model(bv, "model-x").tokens.input, 200);
    let omlx = find_provider(&resp, "omlx");
    assert_eq!(find_model(omlx, "model-x").tokens.input, 600);
    assert!((pct(&bv.share).unwrap() - 25.0).abs() < 1e-9);
    assert!((pct(&omlx.share).unwrap() - 75.0).abs() < 1e-9);
    assert_eq!(resp.total_tokens, 800);
}

#[test]
fn test_provider_mix_harnesses_combine_under_shared_provider() {
    let conn = setup_test_db();
    insert_metric_row(
        &conn,
        "opencode.token.usage",
        T0 + 2,
        100,
        r#"{"agent":"orchestrator","model":"aws/opus-5","type":"input","session.id":"s1"}"#,
    );
    insert_metric_row(
        &conn,
        "opencode.model.usage",
        T0 + 1,
        0,
        r#"{"model":"aws/opus-5","provider":"anthropic","session.id":"s1"}"#,
    );
    insert_claude_span(
        &conn,
        "sp1",
        T0,
        "opus-5",
        Some("anthropic"),
        Some("sess-1"),
        RoleTokenUsage {
            input: 300,
            output: 0,
            cache_read: 0,
            cache_write: 0,
            reasoning: 0,
        },
    );

    let resp = query_provider_mix(&conn, Some(T0), Some(T0 + 2));
    assert_eq!(resp.method, "direct");
    let anthropic = find_provider(&resp, "anthropic");
    assert_eq!(anthropic.models.len(), 2, "distinct models, one provider");
    assert_eq!(find_model(anthropic, "aws/opus-5").tokens.input, 100);
    assert_eq!(find_model(anthropic, "opus-5").tokens.input, 300);
    assert_eq!(anthropic.models[0].model, "opus-5");
    assert!((pct(&anthropic.share).unwrap() - 100.0).abs() < 1e-9);
}

#[test]
fn test_provider_mix_malformed_rows_do_not_raise() {
    let conn = setup_test_db();
    insert_metric_row(&conn, "opencode.token.usage", T0, 100, "{corrupt");
    insert_metric_row(&conn, "opencode.token.usage", T0 + 2, 200, "{corrupt");
    insert_metric_row(&conn, "opencode.model.usage", T0 + 1, 0, "{corrupt");
    conn.execute(
        "INSERT INTO metrics (name, metric_type, timestamp, value_histogram, attributes)
         VALUES ('codex.turn.token_usage', 2, ?1, '{corrupt', ?2)",
        (T0, r#"{"model":"gpt-5.6-terra","token_type":"input"}"#),
    )
    .unwrap();
    conn.execute(
        r#"INSERT INTO spans (trace_id, span_id, name, kind, start_time, end_time, attributes, status_code)
           VALUES ('t', 'sp1', 'claude_code.llm_request', 0, ?1, ?1 + 1, '{corrupt', 1)"#,
        [T0],
    )
    .unwrap();

    let resp = query_provider_mix(&conn, Some(T0), Some(T0 + 2));
    assert_eq!(
        resp.total_tokens, 0,
        "corrupt rows must not contribute tokens"
    );
}

#[test]
fn test_provider_mix_role_token_usage_total() {
    let t = RoleTokenUsage {
        input: 1,
        output: 2,
        cache_read: 3,
        cache_write: 4,
        reasoning: 5,
    };
    assert_eq!(t.total(), 15);
}
