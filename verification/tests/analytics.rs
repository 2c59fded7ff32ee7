//! What is read of model calls and tool calls, run against a database.
use otelite::analytics::{self, ModelLabel, TokenExprs, Window};
use otelite::calls::{self, TopSpanSort};
use otelite::dashboard::{ContextTypeSplit, ToolErrorEntry};
use otelite::identity::{drift_pair, model_usage, ModelDriftPair, ModelUsage, ModelUsageRow};
use otelite::latency::{latency_stats, LatencyRow, LatencySample, LatencyStats, TtftReading};
use otelite::latency_series;
use otelite::records;
use otelite::series;
use otelite::sql::{SqlValue, Statement};
use otelite::tables::{ErrorTypeBreakdown, TokenUsageSummary};
use otelite::tools::{self, ApprovalRow, HourOfDayBucket, ToolApprovalStats, ToolUsage};
use otelite::usage::NamedUsage;
use rusqlite::types::Value;
use rusqlite::Connection;

const SCHEMA: &str = "
CREATE TABLE logs (
    id INTEGER PRIMARY KEY, timestamp INTEGER NOT NULL, observed_timestamp INTEGER, trace_id TEXT,
    span_id TEXT, severity_number INTEGER NOT NULL, severity_text TEXT, body TEXT, attributes TEXT,
    resource TEXT, scope TEXT
);
CREATE VIRTUAL TABLE logs_fts USING fts5(body, content='logs', content_rowid='id');
CREATE TRIGGER logs_fts_insert AFTER INSERT ON logs BEGIN
    INSERT INTO logs_fts(rowid, body) VALUES (new.id, new.body);
END;
CREATE TABLE spans (
    id INTEGER PRIMARY KEY, trace_id TEXT NOT NULL, span_id TEXT NOT NULL, parent_span_id TEXT,
    name TEXT NOT NULL, kind INTEGER NOT NULL, start_time INTEGER NOT NULL, end_time INTEGER NOT NULL,
    attributes TEXT, events TEXT, links TEXT, status_code INTEGER, status_message TEXT, resource TEXT,
    scope TEXT, created_at INTEGER DEFAULT 0
);
CREATE TABLE metrics (
    id INTEGER PRIMARY KEY, name TEXT NOT NULL, description TEXT, unit TEXT, metric_type INTEGER NOT NULL,
    timestamp INTEGER NOT NULL, value_int INTEGER, value_double REAL, value_histogram TEXT,
    value_summary TEXT, attributes TEXT, resource TEXT
);
";

fn setup_test_db() -> Connection {
    let conn = Connection::open_in_memory().unwrap();
    conn.execute_batch(SCHEMA).unwrap();
    conn
}

fn bind(value: &SqlValue) -> Value {
    match value {
        SqlValue::Null => Value::Null,
        SqlValue::Integer(n) => Value::Integer(*n),
        SqlValue::Text(t) => Value::Text(t.clone()),
        SqlValue::Number(bits) => Value::Real(f64::from_bits(*bits)),
    }
}

/// Runs a statement and returns its rows.
fn run(conn: &Connection, s: &Statement) -> Vec<Vec<Value>> {
    let mut stmt = conn.prepare(&s.sql).unwrap();
    let columns = stmt.column_count();
    let rows = stmt
        .query_map(rusqlite::params_from_iter(s.values.iter().map(bind)), |row| {
            (0..columns).map(|i| row.get::<_, Value>(i)).collect::<Result<Vec<_>, _>>()
        })
        .unwrap();
    rows.map(|r| r.unwrap()).collect()
}

#[allow(dead_code)]
fn integer(v: &Value) -> i64 {
    match v {
        Value::Integer(n) => *n,
        other => panic!("no integer: {:?}", other),
    }
}

#[allow(dead_code)]
fn optional_integer(v: &Value) -> Option<i64> {
    match v {
        Value::Null => None,
        other => Some(integer(other)),
    }
}

#[allow(dead_code)]
fn number(v: &Value) -> f64 {
    match v {
        Value::Real(x) => *x,
        Value::Integer(n) => *n as f64,
        other => panic!("no number: {:?}", other),
    }
}

#[allow(dead_code)]
fn text(v: &Value) -> String {
    match v {
        Value::Text(t) => t.clone(),
        other => panic!("no text: {:?}", other),
    }
}

#[allow(dead_code)]
fn optional_text(v: &Value) -> Option<String> {
    match v {
        Value::Null => None,
        other => Some(text(other)),
    }
}

fn first_of(keys: &[&str]) -> String {
    let parts: Vec<String> =
        keys.iter().map(|k| format!("json_extract(attributes, '$.\"{}\"')", k)).collect();
    format!("COALESCE({}, NULL)", parts.join(", "))
}

fn count_of(keys: &[&str]) -> String {
    let parts: Vec<String> = keys
        .iter()
        .map(|k| format!("CAST(json_extract(attributes, '$.\"{}\"') AS INTEGER)", k))
        .collect();
    format!("COALESCE({}, NULL)", parts.join(", "))
}

/// The attribute names that the tests use.
fn vocabulary() -> TokenExprs {
    let request = ["gen_ai.request.model", "llm.model_name", "model"];
    let response = ["gen_ai.response.model", "llm.response.model"];
    let both = ["gen_ai.request.model", "llm.model_name", "model", "gen_ai.response.model", "llm.response.model"];
    let system = ["gen_ai.system", "llm.system"];
    let guard = format!(
        "json_valid(attributes) AND (name = 'claude_code.llm_request' OR {} IS NOT NULL OR {} IS NOT NULL)",
        first_of(&system),
        first_of(&both)
    );
    TokenExprs {
        input: count_of(&["gen_ai.usage.input_tokens", "input_tokens"]),
        output: count_of(&["gen_ai.usage.output_tokens", "output_tokens"]),
        cache_creation: count_of(&["gen_ai.usage.cache_creation_tokens", "cache_creation_tokens"]),
        cache_read: count_of(&["gen_ai.usage.cache_read_tokens", "cache_read_tokens"]),
        model: first_of(&both),
        request_model: first_of(&request),
        response_model: first_of(&response),
        system: first_of(&system),
        llm_span_guard: guard.clone(),
        request_span_guard: guard,
    }
}

static SPAN_COUNTER: std::sync::atomic::AtomicU64 = std::sync::atomic::AtomicU64::new(0);

fn next_id() -> String {
    let n = SPAN_COUNTER.fetch_add(1, std::sync::atomic::Ordering::Relaxed);
    format!("id-{n}")
}

fn insert_named(conn: &Connection, name: &str, attributes: &str) {
    conn.execute(
        "INSERT INTO spans (trace_id, span_id, name, kind, start_time, end_time, attributes, resource, events, links, scope)
         VALUES (?, ?, ?, 0, 1000000000, 2000000000, ?, '{}', '[]', '[]', '{}')",
        (next_id(), next_id(), name, attributes),
    )
    .unwrap();
}

fn quoted(s: Option<&str>) -> String {
    match s {
        Some(s) => format!("\"{}\"", s),
        None => "null".to_string(),
    }
}

fn insert_llm_span(
    conn: &Connection,
    model: &str,
    input: i64,
    output: i64,
    stop_reason: Option<&str>,
    context: Option<&str>,
) {
    let attrs = format!(
        r#"{{"model":"{model}","input_tokens":{input},"output_tokens":{output},"stop_reason":{},"llm_request.context":{}}}"#,
        quoted(stop_reason),
        quoted(context)
    );
    insert_named(conn, "claude_code.llm_request", &attrs);
}

fn insert_tool_decision(conn: &Connection, decision: &str, source: &str, tool_name: &str) {
    let attrs = format!(r#"{{"decision":"{decision}","source":"{source}","tool_name":"{tool_name}"}}"#);
    insert_named(conn, "claude_code.tool.blocked_on_user", &attrs);
}

fn insert_failed_tool(conn: &Connection, tool_name: &str, error: &str) {
    let attrs = format!(r#"{{"tool_name":"{tool_name}","success":"false","error":"{error}"}}"#);
    insert_named(conn, "claude_code.tool.execution", &attrs);
}

fn window(start: Option<i64>, end: Option<i64>) -> Window {
    Window { start, end }
}

fn owned(s: Option<&str>) -> Option<String> {
    s.map(|s| s.to_string())
}

fn query_error_types(
    conn: &Connection,
    start: Option<i64>,
    end: Option<i64>,
    model: Option<&str>,
) -> Vec<ErrorTypeBreakdown> {
    run(conn, &calls::query_error_types(&vocabulary(), window(start, end), &owned(model)))
        .iter()
        .map(|r| ErrorTypeBreakdown {
            model: optional_text(&r[0]),
            error_type: text(&r[1]),
            bucket: text(&r[2]),
            count: integer(&r[3]) as usize,
        })
        .collect()
}

fn query_model_drift(conn: &Connection, start: Option<i64>, end: Option<i64>) -> Vec<ModelDriftPair> {
    run(conn, &analytics::query_model_drift(&vocabulary(), window(start, end)))
        .iter()
        .map(|r| drift_pair(optional_text(&r[0]), optional_text(&r[1]), integer(&r[2])))
        .collect()
}

fn query_token_usage(
    conn: &Connection,
    start: Option<i64>,
    end: Option<i64>,
    model: Option<&str>,
    by: ModelLabel,
) -> (TokenUsageSummary, Vec<ModelUsage>, Vec<NamedUsage>) {
    let s = analytics::query_token_usage(&vocabulary(), window(start, end), &owned(model), by);
    let totals = &run(conn, &s.summary)[0];
    let summary = TokenUsageSummary {
        total_input_tokens: integer(&totals[0]) as u64,
        total_output_tokens: integer(&totals[1]) as u64,
        total_requests: integer(&totals[2]) as usize,
        total_cache_creation_tokens: integer(&totals[3]) as u64,
        total_cache_read_tokens: integer(&totals[4]) as u64,
    };
    let rows: Vec<ModelUsageRow> = run(conn, &s.by_model)
        .iter()
        .map(|r| ModelUsageRow {
            model: text(&r[0]),
            request_model: optional_text(&r[1]),
            response_model: optional_text(&r[2]),
            input_tokens: integer(&r[3]) as u64,
            output_tokens: integer(&r[4]) as u64,
            requests: integer(&r[5]) as usize,
        })
        .collect();
    let systems: Vec<NamedUsage> = run(conn, &s.by_system)
        .iter()
        .map(|r| NamedUsage {
            name: text(&r[0]),
            input_tokens: integer(&r[1]) as u64,
            output_tokens: integer(&r[2]) as u64,
            requests: integer(&r[3]) as usize,
        })
        .collect();
    (summary, model_usage(&rows), systems)
}

fn query_latency_stats(
    conn: &Connection,
    start: Option<i64>,
    end: Option<i64>,
    model: Option<&str>,
) -> Vec<LatencyStats> {
    let rows: Vec<LatencyRow> =
        run(conn, &analytics::query_latency_stats(&vocabulary(), window(start, end), &owned(model)))
            .iter()
            .map(|r| LatencyRow {
                model: optional_text(&r[0]),
                sample: LatencySample {
                    duration_ns: integer(&r[1]),
                    ttft: TtftReading::Absent,
                    output_tokens: optional_integer(&r[5]),
                    input_tokens: optional_integer(&r[6]),
                    cache_creation_tokens: optional_integer(&r[7]),
                    cache_read_tokens: optional_integer(&r[8]),
                },
            })
            .collect();
    latency_stats(&rows)
}

struct Reason {
    reason: String,
    count: i64,
}

fn reasons(rows: Vec<Vec<Value>>) -> Vec<Reason> {
    rows.iter().map(|r| Reason { reason: text(&r[0]), count: integer(&r[1]) }).collect()
}

fn query_finish_reasons(
    conn: &Connection,
    start: Option<i64>,
    end: Option<i64>,
    model: Option<&str>,
) -> Vec<Reason> {
    reasons(run(conn, &calls::query_finish_reasons(&vocabulary(), window(start, end), &owned(model))))
}

fn query_stop_reasons(conn: &Connection, start: Option<i64>, end: Option<i64>) -> Vec<Reason> {
    reasons(run(conn, &analytics::query_stop_reasons(&vocabulary(), window(start, end))))
}

fn query_tool_approvals(conn: &Connection, start: Option<i64>, end: Option<i64>) -> ToolApprovalStats {
    let rows: Vec<ApprovalRow> = run(conn, &tools::query_tool_approvals(window(start, end)))
        .iter()
        .map(|r| ApprovalRow {
            decision: optional_text(&r[0]),
            source: optional_text(&r[1]),
            tool_name: optional_text(&r[2]),
            count: integer(&r[3]) as usize,
        })
        .collect();
    tools::tool_approvals(&rows)
}

fn query_context_type_split(conn: &Connection, start: Option<i64>, end: Option<i64>) -> Vec<ContextTypeSplit> {
    run(conn, &analytics::query_context_type_split(&vocabulary(), window(start, end)))
        .iter()
        .map(|r| ContextTypeSplit {
            context: text(&r[0]),
            calls: integer(&r[1]) as usize,
            input_tokens: integer(&r[2]) as u64,
            output_tokens: integer(&r[3]) as u64,
        })
        .collect()
}

fn query_tool_errors(conn: &Connection, start: Option<i64>, end: Option<i64>, limit: usize) -> Vec<ToolErrorEntry> {
    run(conn, &tools::query_tool_errors(window(start, end), limit))
        .iter()
        .map(|r| ToolErrorEntry {
            tool_name: text(&r[0]),
            error_message: text(&r[1]),
            count: integer(&r[2]) as usize,
        })
        .collect()
}

fn query_hour_of_day(conn: &Connection, start: Option<i64>, end: Option<i64>) -> Vec<HourOfDayBucket> {
    let s = tools::query_hour_of_day(window(start, end));
    let pairs = |s: &Statement| -> Vec<(i64, i64)> {
        run(conn, s).iter().map(|r| (integer(&r[0]), integer(&r[1]))).collect()
    };
    tools::hour_of_day(&pairs(&s.llm), &pairs(&s.tool))
}

fn query_tool_usage(conn: &Connection, start: Option<i64>, end: Option<i64>, limit: usize) -> Vec<ToolUsage> {
    run(conn, &tools::query_tool_usage(window(start, end), limit))
        .iter()
        .map(|r| tools::tool_usage(text(&r[0]), integer(&r[1]), integer(&r[2]), integer(&r[3]), integer(&r[4])))
        .collect()
}

struct Retrieval {
    query: String,
}

struct Retrievals {
    total_retrievals: i64,
    avg_documents_per_query: f64,
    avg_top_document_score: Option<f64>,
    top_queries: Vec<Retrieval>,
}

fn query_retrieval_stats(conn: &Connection, start: Option<i64>, end: Option<i64>, limit: usize) -> Retrievals {
    let s = calls::query_retrieval_stats(window(start, end), limit);
    let summary = &run(conn, &s.summary)[0];
    Retrievals {
        total_retrievals: integer(&summary[0]),
        avg_documents_per_query: number(&summary[1]),
        avg_top_document_score: match &summary[2] {
            Value::Null => None,
            v => Some(number(v)),
        },
        top_queries: run(conn, &s.top_queries).iter().map(|r| Retrieval { query: text(&r[0]) }).collect(),
    }
}

fn insert_call(conn: &Connection, span_id: &str, status_code: i64, attributes: &str) {
    conn.execute(
        &format!(
            r#"INSERT INTO spans (trace_id, span_id, name, kind, start_time, end_time, attributes, status_code)
               VALUES ('trace1', '{}', 'llm.call', 0, 1000, 2000, '{}', {})"#,
            span_id, attributes, status_code
        ),
        [],
    )
    .unwrap();
}


#[test]
fn test_query_error_types_empty() {
    let conn = setup_test_db();
    let rows = query_error_types(&conn, None, None, None);
    assert!(rows.is_empty());
}

#[test]
fn test_query_error_types_no_errors_when_all_ok() {
    let conn = setup_test_db();
    insert_call(
        &conn,
        "span1",
        1,
        r#"{"gen_ai.system":"openai","gen_ai.request.model":"gpt-4"}"#,
    );
    let rows = query_error_types(&conn, None, None, None);
    assert!(rows.is_empty(), "OK spans should not appear in error_types");
}

#[test]
fn test_query_error_types_rate_limit_bucket() {
    let conn = setup_test_db();
    insert_call(
        &conn,
        "span1",
        2,
        r#"{"gen_ai.system":"openai","gen_ai.request.model":"gpt-4","error.type":"RateLimitError"}"#,
    );
    let rows = query_error_types(&conn, None, None, None);
    assert_eq!(rows.len(), 1);
    assert_eq!(rows[0].bucket, "rate_limit");
    assert_eq!(rows[0].error_type, "RateLimitError");
    assert_eq!(rows[0].count, 1);
}

#[test]
fn test_query_error_types_http_429_bucket() {
    let conn = setup_test_db();
    insert_call(
        &conn,
        "span1",
        2,
        r#"{"gen_ai.system":"openai","gen_ai.request.model":"gpt-4","http.response.status_code":429}"#,
    );
    let rows = query_error_types(&conn, None, None, None);
    assert_eq!(rows.len(), 1);
    assert_eq!(rows[0].bucket, "rate_limit");
}

#[test]
fn test_query_error_types_timeout_bucket() {
    let conn = setup_test_db();
    insert_call(
        &conn,
        "span1",
        2,
        r#"{"gen_ai.system":"openai","gen_ai.request.model":"gpt-4","error.type":"TimeoutError"}"#,
    );
    let rows = query_error_types(&conn, None, None, None);
    assert_eq!(rows.len(), 1);
    assert_eq!(rows[0].bucket, "timeout");
}

#[test]
fn test_query_error_types_server_error_bucket() {
    let conn = setup_test_db();
    insert_call(
        &conn,
        "span1",
        2,
        r#"{"gen_ai.system":"openai","gen_ai.request.model":"gpt-4","http.response.status_code":500}"#,
    );
    let rows = query_error_types(&conn, None, None, None);
    assert_eq!(rows.len(), 1);
    assert_eq!(rows[0].bucket, "server_error");
}

#[test]
fn test_query_error_types_unknown_bucket_fallback() {
    let conn = setup_test_db();
    insert_call(
        &conn,
        "span1",
        2,
        r#"{"gen_ai.system":"openai","gen_ai.request.model":"gpt-4","error.type":"SomeWeirdError"}"#,
    );
    let rows = query_error_types(&conn, None, None, None);
    assert_eq!(rows.len(), 1);
    assert_eq!(rows[0].bucket, "unknown");
    assert_eq!(rows[0].error_type, "SomeWeirdError");
}

#[test]
fn test_query_error_types_multiple_buckets_sorted_by_count() {
    let conn = setup_test_db();
    for i in 0..3 {
        insert_call(
            &conn,
            &format!("span_rl_{}", i),
            2,
            r#"{"gen_ai.system":"openai","gen_ai.request.model":"gpt-4","error.type":"RateLimitError"}"#,
        );
    }
    insert_call(
        &conn,
        "span_to_1",
        2,
        r#"{"gen_ai.system":"openai","gen_ai.request.model":"gpt-4","error.type":"TimeoutError"}"#,
    );
    let rows = query_error_types(&conn, None, None, None);
    assert!(rows[0].count >= rows[1].count);
    let buckets: Vec<&str> = rows.iter().map(|r| r.bucket.as_str()).collect();
    assert!(buckets.contains(&"rate_limit"));
    assert!(buckets.contains(&"timeout"));
}

#[test]
fn test_query_error_types_filters_by_model() {
    let conn = setup_test_db();
    insert_call(
        &conn,
        "span1",
        2,
        r#"{"gen_ai.system":"openai","gen_ai.request.model":"gpt-4","error.type":"RateLimitError"}"#,
    );
    insert_call(
        &conn,
        "span2",
        2,
        r#"{"gen_ai.system":"anthropic","gen_ai.request.model":"sonnet-4","error.type":"RateLimitError"}"#,
    );
    let rows = query_error_types(
        &conn,
        None,
        None,
        Some("gpt-4"),
    );
    assert_eq!(rows.len(), 1);
    assert_eq!(rows[0].model.as_deref(), Some("openai/gpt-4"));
}


#[test]
fn test_query_model_drift_empty() {
    let conn = setup_test_db();
    let rows = query_model_drift(&conn, None, None);
    assert!(rows.is_empty());
}

#[test]
fn test_query_model_drift_no_response_model() {
    let conn = setup_test_db();
    insert_call(
        &conn,
        "span1",
        1,
        r#"{"gen_ai.system":"openai","gen_ai.request.model":"gpt-4"}"#,
    );
    let rows = query_model_drift(&conn, None, None);
    let drifted: Vec<_> = rows.iter().filter(|r| r.differs).collect();
    assert!(drifted.is_empty());
}

#[test]
fn test_query_model_drift_matching_models_no_drift() {
    let conn = setup_test_db();
    insert_call(
        &conn,
        "span1",
        1,
        r#"{"gen_ai.system":"openai","gen_ai.request.model":"gpt-4","gen_ai.response.model":"gpt-4"}"#,
    );
    let rows = query_model_drift(&conn, None, None);
    assert_eq!(rows.len(), 1);
    assert!(!rows[0].differs);
}

#[test]
fn test_query_model_drift_differing_models_detected() {
    let conn = setup_test_db();
    insert_call(
        &conn,
        "span1",
        1,
        r#"{"gen_ai.system":"anthropic","gen_ai.request.model":"sonnet-3-5","gen_ai.response.model":"sonnet-3-5-20241022"}"#,
    );
    let rows = query_model_drift(&conn, None, None);
    assert_eq!(rows.len(), 1);
    assert!(
        rows[0].differs,
        "Different req/resp models should have differs=true"
    );
    assert_eq!(rows[0].request_model.as_deref(), Some("sonnet-3-5"));
    assert_eq!(
        rows[0].response_model.as_deref(),
        Some("sonnet-3-5-20241022")
    );
}

#[test]
fn test_query_model_drift_groups_identical_pairs() {
    let conn = setup_test_db();
    for i in 0..2 {
        insert_call(
            &conn,
            &format!("span{}", i),
            1,
            r#"{"gen_ai.system":"anthropic","gen_ai.request.model":"sonnet-3-5","gen_ai.response.model":"sonnet-3-5-20241022"}"#,
        );
    }
    let rows = query_model_drift(&conn, None, None);
    assert_eq!(rows.len(), 1, "Identical pairs should be grouped");
    assert_eq!(rows[0].count, 2);
}

const T0: i64 = 1_700_000_000_000_000_000;
const END: i64 = T0 + 10_000_000_000;

fn insert_request(conn: &Connection, span_id: &str, attrs: &str) {
    conn.execute(
        r#"INSERT INTO spans (trace_id, span_id, name, kind, start_time, end_time, attributes, status_code)
           VALUES ('t', ?1, 'claude_code.llm_request', 0, ?2, ?3, ?4, 1)"#,
        (span_id, T0, T0 + 1_000_000_000, attrs),
    )
    .unwrap();
}

fn models_by_name(
    conn: &Connection,
    filters: Option<&str>,
) -> std::collections::HashMap<String, ModelUsage> {
    let (_summary, by_model, _systems) =
        query_token_usage(conn, Some(T0), Some(END), filters, ModelLabel::Identity);
    by_model
        .into_iter()
        .map(|m| {
            let key = m.model.clone();
            (key, m)
        })
        .collect()
}

#[test]
fn test_provider_collision_keeps_identities_distinct() {
    let conn = setup_test_db();
    insert_request(
        &conn,
        "a",
        r#"{"gen_ai.request.model":"sonnet-x","gen_ai.system":"anthropic","output_tokens":"10"}"#,
    );
    insert_request(
        &conn,
        "b",
        r#"{"gen_ai.request.model":"sonnet-x","gen_ai.system":"openai","output_tokens":"20"}"#,
    );

    let m = models_by_name(&conn, None);
    assert_eq!(m.len(), 2, "provider collision must not merge");
    assert_eq!(m["anthropic/sonnet-x"].requests, 1);
    assert_eq!(m["openai/sonnet-x"].requests, 1);
    assert_eq!(m["anthropic/sonnet-x"].output_tokens, 10);
    assert_eq!(m["openai/sonnet-x"].output_tokens, 20);
}

#[test]
fn test_rerouted_response_stays_in_request_identity() {
    let conn = setup_test_db();
    insert_request(
        &conn,
        "a",
        r#"{"gen_ai.request.model":"sonnet","gen_ai.response.model":"haiku","gen_ai.system":"anthropic","output_tokens":"10"}"#,
    );
    insert_request(
        &conn,
        "b",
        r#"{"gen_ai.request.model":"sonnet","gen_ai.response.model":"sonnet","gen_ai.system":"anthropic","output_tokens":"10"}"#,
    );

    let m = models_by_name(&conn, None);
    assert_eq!(m.len(), 1, "both calls belong to the request identity");
    let row = &m["anthropic/sonnet"];
    assert_eq!(row.requests, 2);
    assert_eq!(row.rerouted_count, 1);
    assert_eq!(row.response_model.as_deref(), Some("haiku"));
}

#[test]
fn test_dominant_response_model() {
    let conn = setup_test_db();
    for (id, resp) in [("a", "haiku-1"), ("b", "haiku-1"), ("c", "haiku-2")] {
        insert_request(
            &conn,
            id,
            &format!(
                r#"{{"gen_ai.request.model":"opus","gen_ai.response.model":"{resp}","gen_ai.system":"anthropic","output_tokens":"1"}}"#
            ),
        );
    }
    let m = models_by_name(&conn, None);
    let row = &m["anthropic/opus"];
    assert_eq!(row.rerouted_count, 3);
    assert_eq!(row.response_model.as_deref(), Some("haiku-1"));
}

#[test]
fn test_response_only_span_identity() {
    let conn = setup_test_db();
    insert_request(
        &conn,
        "a",
        r#"{"gen_ai.response.model":"haiku","output_tokens":"10"}"#,
    );

    let m = models_by_name(&conn, None);
    assert_eq!(m.len(), 1);
    let row = &m["haiku"];
    assert_eq!(row.requests, 1);
    assert_eq!(row.rerouted_count, 0, "no request model → not rerouted");
    assert!(row.response_model.is_none());
}

#[test]
fn test_aliased_keys_build_identity_and_drift() {
    let conn = setup_test_db();
    insert_request(
        &conn,
        "a",
        r#"{"llm.model_name":"gpt-x","llm.system":"openai","llm.response.model":"gpt-x-mini"}"#,
    );

    let m = models_by_name(&conn, None);
    assert_eq!(m.len(), 1);
    let row = &m["openai/gpt-x"];
    assert_eq!(row.rerouted_count, 1);
    assert_eq!(row.response_model.as_deref(), Some("gpt-x-mini"));

    let drift =
        query_model_drift(&conn, Some(T0), Some(END));
    assert_eq!(drift.len(), 1);
    assert_eq!(drift[0].request_model.as_deref(), Some("gpt-x"));
    assert_eq!(drift[0].response_model.as_deref(), Some("gpt-x-mini"));
    assert!(drift[0].differs);
}

#[test]
fn test_bare_model_filter_selects_composite_identity() {
    let conn = setup_test_db();
    insert_request(
        &conn,
        "a",
        r#"{"gen_ai.request.model":"sonnet-x","gen_ai.system":"anthropic","output_tokens":"10"}"#,
    );
    insert_request(
        &conn,
        "b",
        r#"{"gen_ai.request.model":"other","gen_ai.system":"anthropic","output_tokens":"1"}"#,
    );

    let m = models_by_name(
        &conn,
        Some("sonnet-x"),
    );
    assert_eq!(m.len(), 1);
    assert_eq!(m["anthropic/sonnet-x"].requests, 1);
}

#[test]
fn test_latency_stats_use_identity() {
    let conn = setup_test_db();
    insert_request(
        &conn,
        "a",
        r#"{"gen_ai.request.model":"sonnet-x","gen_ai.system":"anthropic","output_tokens":"10"}"#,
    );
    insert_request(
        &conn,
        "b",
        r#"{"gen_ai.request.model":"sonnet-x","gen_ai.system":"openai","output_tokens":"20"}"#,
    );

    let stats =
        query_latency_stats(&conn, Some(T0), Some(END), None);
    let labels: Vec<String> = stats
        .iter()
        .map(|s| s.model.clone().unwrap_or_default())
        .collect();
    assert_eq!(labels.len(), 2);
    assert!(labels.iter().any(|l| l == "anthropic/sonnet-x"));
    assert!(labels.iter().any(|l| l == "openai/sonnet-x"));
}

fn insert_reasons(conn: &Connection, span_id: &str, attributes: &str) {
    conn.execute(
        r#"INSERT INTO spans (trace_id, span_id, name, kind, start_time, end_time, attributes, status_code)
           VALUES ('t', ?1, 'llm.call', 0, 1000, 2000, ?2, 1)"#,
        (span_id, attributes),
    )
    .unwrap();
}

fn insert_claude_code_response_log(conn: &Connection, body_value: &str) {
    let attrs = format!(
        r#"{{"body":{}}}"#,
        serde_json::to_string(body_value).unwrap()
    );
    conn.execute(
        r#"INSERT INTO logs (timestamp, severity_number, body, attributes)
           VALUES (1000, 9, 'claude_code.api_response_body', ?1)"#,
        [attrs],
    )
    .unwrap();
}

#[test]
fn test_finish_reasons_empty() {
    let conn = setup_test_db();
    let rows = query_finish_reasons(&conn, None, None, None);
    assert!(rows.is_empty());
}

#[test]
fn test_finish_reasons_plural_array() {
    let conn = setup_test_db();
    insert_reasons(
        &conn,
        "s1",
        r#"{"gen_ai.response.finish_reasons":["stop","length"]}"#,
    );
    insert_reasons(
        &conn,
        "s2",
        r#"{"gen_ai.response.finish_reasons":["stop"]}"#,
    );

    let rows = query_finish_reasons(&conn, None, None, None);
    let stop = rows.iter().find(|r| r.reason == "stop").unwrap();
    assert_eq!(stop.count, 2);
    let length = rows.iter().find(|r| r.reason == "length").unwrap();
    assert_eq!(length.count, 1);
}

#[test]
fn test_finish_reasons_singular_scalar() {
    let conn = setup_test_db();
    insert_reasons(&conn, "s1", r#"{"gen_ai.response.finish_reason":"stop"}"#);
    let rows = query_finish_reasons(&conn, None, None, None);
    let stop = rows.iter().find(|r| r.reason == "stop").unwrap();
    assert_eq!(stop.count, 1);
}

#[test]
fn test_finish_reasons_scalar_in_plural_field_does_not_error() {
    let conn = setup_test_db();
    insert_reasons(&conn, "s1", r#"{"gen_ai.response.finish_reasons":"stop"}"#);
    insert_reasons(&conn, "s2", r#"{"gen_ai.response.finish_reason":"length"}"#);

    let rows = query_finish_reasons(&conn, None, None, None);
    assert_eq!(rows.len(), 1);
    assert_eq!(rows[0].reason, "length");
    assert_eq!(rows[0].count, 1);
}

#[test]
fn test_finish_reasons_object_in_plural_field_does_not_error() {
    let conn = setup_test_db();
    insert_reasons(
        &conn,
        "s1",
        r#"{"gen_ai.response.finish_reasons":{"not":"an array"}}"#,
    );
    insert_reasons(
        &conn,
        "s2",
        r#"{"gen_ai.response.finish_reasons":["stop"]}"#,
    );

    let rows = query_finish_reasons(&conn, None, None, None);
    assert_eq!(rows.len(), 1);
    assert_eq!(rows[0].reason, "stop");
}

#[test]
fn test_finish_reasons_malformed_response_body_is_skipped() {
    let conn = setup_test_db();
    insert_claude_code_response_log(
        &conn,
        r#"{"stop_reason":"end_turn","model":"sonnet-4"}"#,
    );
    insert_claude_code_response_log(&conn, r#"{"stop_reason":"max_tokens","mod"#);
    insert_claude_code_response_log(&conn, "not even close to json");

    let rows = query_finish_reasons(&conn, None, None, None);
    assert_eq!(rows.len(), 1);
    assert_eq!(rows[0].reason, "end_turn");
    assert_eq!(rows[0].count, 1);
}

#[test]
fn test_finish_reasons_body_without_stop_reason() {
    let conn = setup_test_db();
    insert_claude_code_response_log(&conn, r#"{"model":"sonnet-4"}"#);
    let rows = query_finish_reasons(&conn, None, None, None);
    assert!(rows.is_empty());
}

#[test]
fn test_query_token_usage_tolerates_malformed_attributes() {
    let conn = setup_test_db();
    conn.execute(
        "INSERT INTO spans (trace_id, span_id, name, kind, start_time, end_time, attributes, status_code)
         VALUES ('t1', 's1', 'llm.call', 0, 100, 200,
                 '{\"gen_ai.system\":\"anthropic\",\"gen_ai.request.model\":\"opus-4-7\",\"gen_ai.usage.input_tokens\":50,\"gen_ai.usage.output_tokens\":25}', 1)",
        [],
    )
    .unwrap();
    conn.execute(
        "INSERT INTO spans (trace_id, span_id, name, kind, start_time, end_time, attributes, status_code)
         VALUES ('t2', 's2', 'corrupt', 0, 100, 200, '{', 1)",
        [],
    )
    .unwrap();

    let (summary, by_model, by_system) =
        query_token_usage(&conn, Some(50), Some(300), None, ModelLabel::Name);

    assert_eq!(summary.total_requests, 1);
    assert_eq!(summary.total_input_tokens, 50);
    assert_eq!(summary.total_output_tokens, 25);
    assert_eq!(by_model.len(), 1);
    assert_eq!(by_model[0].model, "opus-4-7");
    assert_eq!(by_model[0].input_tokens, 50);
    assert_eq!(by_model[0].output_tokens, 25);
    assert_eq!(by_system.len(), 1);
    assert_eq!(by_system[0].name, "anthropic");
}

#[test]
fn test_query_tool_approvals_empty() {
    let conn = setup_test_db();
    let stats = query_tool_approvals(&conn, None, None);
    assert_eq!(stats.total, 0);
    assert_eq!(stats.auto_accepted, 0);
    assert_eq!(stats.rejected, 0);
}

#[test]
fn test_query_tool_approvals_counts() {
    let conn = setup_test_db();
    insert_tool_decision(&conn, "accept", "config", "Bash");
    insert_tool_decision(&conn, "accept", "config", "Read");
    insert_tool_decision(&conn, "accept", "user", "Write");
    insert_tool_decision(&conn, "reject", "user", "Bash");

    let stats = query_tool_approvals(&conn, None, None);
    assert_eq!(stats.total, 4);
    assert_eq!(stats.auto_accepted, 2);
    assert_eq!(stats.user_accepted, 1);
    assert_eq!(stats.rejected, 1);
    assert_eq!(stats.unknown, 0);
    assert_eq!(stats.top_rejected.len(), 1);
    assert_eq!(stats.top_rejected[0].name, "Bash");
}

#[test]
fn test_query_stop_reasons_empty() {
    let conn = setup_test_db();
    let rows = query_stop_reasons(&conn, None, None);
    assert_eq!(rows.len(), 0);
}

#[test]
fn test_query_stop_reasons_with_data() {
    let conn = setup_test_db();
    insert_llm_span(&conn, "sonnet", 100, 50, Some("tool_use"), None);
    insert_llm_span(&conn, "sonnet", 200, 80, Some("end_turn"), None);
    insert_llm_span(&conn, "sonnet", 150, 60, Some("tool_use"), None);

    let rows = query_stop_reasons(&conn, None, None);
    let tool_use = rows
        .iter()
        .find(|r| r.reason == "tool_use")
        .map(|r| r.count);
    let end_turn = rows
        .iter()
        .find(|r| r.reason == "end_turn")
        .map(|r| r.count);
    assert_eq!(tool_use, Some(2));
    assert_eq!(end_turn, Some(1));
}

#[test]
fn test_query_context_type_split_empty() {
    let conn = setup_test_db();
    let rows = query_context_type_split(&conn, None, None);
    assert!(rows.is_empty());
}

#[test]
fn test_query_context_type_split_groups_by_context() {
    let conn = setup_test_db();
    insert_llm_span(&conn, "model-a", 100, 50, None, Some("interaction"));
    insert_llm_span(&conn, "model-b", 200, 80, None, Some("interaction"));
    insert_llm_span(&conn, "model-c", 150, 60, None, Some("sub_agent"));

    let rows = query_context_type_split(&conn, None, None);
    let interaction = rows.iter().find(|r| r.context == "interaction");
    let sub_agent = rows.iter().find(|r| r.context == "sub_agent");
    assert!(interaction.is_some(), "interaction row missing");
    assert_eq!(interaction.unwrap().calls, 2);
    assert!(sub_agent.is_some(), "sub_agent row missing");
    assert_eq!(sub_agent.unwrap().calls, 1);
}

#[test]
fn test_query_tool_errors_empty() {
    let conn = setup_test_db();
    let rows = query_tool_errors(&conn, None, None, 10);
    assert_eq!(rows.len(), 0);
}

#[test]
fn test_query_tool_errors_with_data() {
    let conn = setup_test_db();
    insert_failed_tool(&conn, "Bash", "Shell command failed");
    insert_failed_tool(&conn, "Bash", "Shell command failed");
    insert_failed_tool(&conn, "Read", "File not found");

    let rows = query_tool_errors(&conn, None, None, 10);
    assert_eq!(rows.len(), 2);
    assert_eq!(rows[0].tool_name, "Bash");
    assert_eq!(rows[0].count, 2);
    assert_eq!(rows[1].tool_name, "Read");
    assert_eq!(rows[1].count, 1);
}

#[test]
fn test_query_hour_of_day_returns_24_buckets() {
    let conn = setup_test_db();
    let rows = query_hour_of_day(&conn, None, None);
    assert_eq!(rows.len(), 24);
    assert_eq!(rows[0].hour, 0);
    assert_eq!(rows[23].hour, 23);
}

#[test]
fn test_query_hour_of_day_empty_db_all_zero() {
    let conn = setup_test_db();
    let rows = query_hour_of_day(&conn, None, None);
    assert!(rows.iter().all(|r| r.llm_calls == 0 && r.tool_calls == 0));
}

#[test]
fn test_query_hour_of_day_data_driven() {
    let conn = setup_test_db();
    let ts_ns: i64 = 1_704_117_600_000_000_000;
    let attrs = r#"{"model": "test", "input_tokens": 10, "output_tokens": 5}"#;
    conn.execute(
        "INSERT INTO spans (trace_id, span_id, name, kind, start_time, end_time, attributes, resource, events, links, scope)
         VALUES (?, ?, 'claude_code.llm_request', 0, ?, ?, ?, '{}', '[]', '[]', '{}')",
        (next_id(), next_id(), ts_ns, ts_ns + 1_000_000_000, attrs.to_string()),
    ).unwrap();
    conn.execute(
        "INSERT INTO spans (trace_id, span_id, name, kind, start_time, end_time, attributes, resource, events, links, scope)
         VALUES (?, ?, 'claude_code.tool.execution', 0, ?, ?, '{}', '{}', '[]', '[]', '{}')",
        (next_id(), next_id(), ts_ns, ts_ns + 500_000_000),
    ).unwrap();

    let rows = query_hour_of_day(&conn, None, None);
    assert_eq!(rows.len(), 24);
    assert_eq!(rows[14].hour, 14);
    assert_eq!(rows[14].llm_calls, 1, "hour 14 should have 1 LLM call");
    assert_eq!(rows[14].tool_calls, 1, "hour 14 should have 1 tool call");
    for (i, b) in rows.iter().enumerate() {
        if i != 14 {
            assert_eq!(b.llm_calls, 0, "hour {i} should have 0 LLM calls");
            assert_eq!(b.tool_calls, 0, "hour {i} should have 0 tool calls");
        }
    }
}

#[test]
fn test_query_finish_reasons_unions_spans_and_logs() {
    let conn = setup_test_db();
    let attrs = r#"{"gen_ai.response.finish_reason": "stop"}"#;
    conn.execute(
        "INSERT INTO spans (trace_id, span_id, name, kind, start_time, end_time, attributes, resource, events, links, scope)
         VALUES (?, ?, 'gen_ai.chat', 0, 1000000000, 2000000000, ?, '{}', '[]', '[]', '{}')",
        (next_id(), next_id(), attrs.to_string()),
    )
    .unwrap();
    let attrs = r#"{"gen_ai.response.finish_reasons": ["tool_calls", "stop"]}"#;
    conn.execute(
        "INSERT INTO spans (trace_id, span_id, name, kind, start_time, end_time, attributes, resource, events, links, scope)
         VALUES (?, ?, 'pi.llm_request', 0, 1000000000, 2000000000, ?, '{}', '[]', '[]', '{}')",
        (next_id(), next_id(), attrs.to_string()),
    )
    .unwrap();
    let attrs = r#"{"gen_ai.response.finish_reason": "length"}"#;
    conn.execute(
        "INSERT INTO spans (trace_id, span_id, name, kind, start_time, end_time, attributes, resource, events, links, scope)
         VALUES (?, ?, 'gen_ai.chat', 0, 900000000, 950000000, ?, '{}', '[]', '[]', '{}')",
        (next_id(), next_id(), attrs.to_string()),
    )
    .unwrap();
    let attrs = r#"{"body": {"stop_reason": "stop"}}"#;
    conn.execute(
        "INSERT INTO logs (timestamp, severity_number, body, attributes, resource)
         VALUES (1500000000, 9, 'claude_code.api_response_body', ?, '{}')",
        [attrs.to_string()],
    )
    .unwrap();

    let rows = query_finish_reasons(&conn, Some(1000000000), Some(2000000000), None);
    let count = |reason: &str| {
        rows.iter()
            .find(|r| r.reason == reason)
            .map(|r| r.count)
            .unwrap_or(0)
    };
    assert_eq!(
        count("stop"),
        3,
        "singular span + plural array + log stop_reason"
    );
    assert_eq!(count("tool_calls"), 1);
    assert_eq!(count("length"), 0, "outside the window");
}


#[test]
fn test_query_tool_usage_covers_all_name_sources_and_window() {
    let conn = setup_test_db();
    let insert_tool = |attrs: &str, name: &str, ts: i64| {
        conn.execute(
            "INSERT INTO spans (trace_id, span_id, name, kind, start_time, end_time, attributes, resource, events, links, scope)
             VALUES (?, ?, ?, 0, ?, ?, ?, '{}', '[]', '[]', '{}')",
            (next_id(), next_id(), name, ts, ts + 1000000000, attrs.to_string()),
        )
        .unwrap();
    };
    insert_tool(
        r#"{"gen_ai.tool.name": "search"}"#,
        "agent.tool",
        1000000000,
    );
    insert_tool(
        r#"{"tool.name": "search"}"#,
        "agent.tool",
        2000000000,
    );
    insert_tool(
        r#"{"tool_name": "read_file"}"#,
        "agent.tool",
        3000000000,
    );
    insert_tool(r#"{}"#, "claude_code.tool.Bash", 4000000000);
    insert_tool(r#"{}"#, "gen_ai.chat", 5000000000);
    insert_tool(
        r#"{"gen_ai.tool.name": "outside"}"#,
        "agent.tool",
        9000000000,
    );

    let rows = query_tool_usage(&conn, Some(1000000000), Some(8000000000), 10);
    let get = |tool: &str| rows.iter().find(|r| r.tool_name == tool);
    assert_eq!(
        get("search").unwrap().count,
        2,
        "both attribute aliases count"
    );
    assert_eq!(get("read_file").unwrap().count, 1);
    assert_eq!(
        get("claude_code.tool.Bash").unwrap().count,
        1,
        "name-based fallback"
    );
    assert!(get("gen_ai.chat").is_none(), "non-tool span excluded");
    assert!(get("outside").is_none(), "outside the window");
}


#[test]
fn test_query_retrieval_stats_counts_retriever_spans() {
    let conn = setup_test_db();
    let insert = |attrs: &str| {
        conn.execute(
            "INSERT INTO spans (trace_id, span_id, name, kind, start_time, end_time, attributes, resource, events, links, scope)
             VALUES (?, ?, 'retrieval', 0, 1000000000, 2000000000, ?, '{}', '[]', '[]', '{}')",
            (next_id(), next_id(), attrs.to_string()),
        )
        .unwrap();
    };
    insert(r#"{ "openinference.span.kind": "RETRIEVER", "retrieval.documents": [{"document.score": 0.9}, {"document.score": 0.7}] }"#);
    insert(r#"{ "retrieval.query": "what is otelite", "retrieval.documents": [{"document.score": 0.5}] }"#);
    insert(r#"{"gen_ai.request.model": "x"}"#);

    let stats = query_retrieval_stats(&conn, None, None, 10);
    assert_eq!(
        stats.total_retrievals, 2,
        "RETRIEVER kind + retrieval.query span"
    );
    assert!((stats.avg_documents_per_query - 1.5).abs() < 1e-9);
    assert_eq!(
        stats.avg_top_document_score,
        Some(0.7),
        "average of 0.9 and 0.5"
    );
    assert_eq!(stats.top_queries.len(), 1);
    assert_eq!(stats.top_queries[0].query, "what is otelite");

    let empty = setup_test_db();
    let stats = query_retrieval_stats(&empty, None, None, 10);
    assert_eq!(stats.total_retrievals, 0);
}

#[test]
fn retries_are_counted() {
    let stats = tools::retry_stats(&vec![1, 3, 1, 2]);
    assert_eq!(stats.total_llm_calls, 4);
    assert_eq!(stats.retried_calls, 2);
    assert_eq!(stats.extra_attempts, 3);
    let rate = stats.retry_rate.unwrap();
    assert_eq!((rate.numerator, rate.denominator), (2, 4));
    assert!(tools::retry_stats(&Vec::new()).retry_rate.is_none());
}

#[test]
fn decisions_add_up() {
    let row = |decision: Option<&str>, source: Option<&str>, tool: &str, count| ApprovalRow {
        decision: owned(decision),
        source: owned(source),
        tool_name: Some(tool.to_string()),
        count,
    };
    let stats = tools::tool_approvals(&vec![
        row(Some("accept"), Some("config"), "a", 4),
        row(Some("reject"), Some("user"), "a", 1),
        row(Some("reject"), Some("user"), "b", 3),
        row(None, None, "c", 2),
    ]);
    assert_eq!(stats.auto_accepted + stats.user_accepted + stats.rejected + stats.unknown, stats.total);
    assert_eq!((stats.total, stats.unknown, stats.rejected), (10, 2, 4));
    let rejected: Vec<(&str, usize)> = stats.top_rejected.iter().map(|c| (c.name.as_str(), c.count)).collect();
    assert_eq!(rejected, vec![("b", 3), ("a", 1)]);
}

fn insert_usage(conn: &Connection, start: i64, status: i64, attributes: &str) {
    conn.execute(
        "INSERT INTO spans (trace_id, span_id, name, kind, start_time, end_time, attributes, status_code)
         VALUES (?1, ?1, 'claude_code.llm_request', 0, ?2, ?2 + 2000000, ?3, ?4)",
        (next_id(), start, attributes, status),
    )
    .unwrap();
}

#[test]
fn every_statement_runs() {
    let conn = setup_test_db();
    insert_usage(
        &conn,
        5_000_000_000,
        2,
        r#"{"model":"m","gen_ai.system":"s","input_tokens":10,"output_tokens":4,"cache_read_tokens":6,"session.id":"se","gen_ai.conversation.id":"co","gen_ai.request.temperature":0.5,"gen_ai.request.max_tokens":100,"gen_ai.response.finish_reason":"length"}"#,
    );
    insert_usage(&conn, 6_000_000_000, 1, r#"{"model":"m","input_tokens":20,"output_tokens":1,"session.id":"se"}"#);
    let x = vocabulary();
    let w = || window(Some(0), Some(10_000_000_000));
    let m = Some("m".to_string());

    let rows = run(&conn, &analytics::query_top_sessions(&x, w(), 10));
    assert_eq!((text(&rows[0][0]), integer(&rows[0][1]), integer(&rows[0][4])), ("se".to_string(), 2, 41));
    let rows = run(&conn, &analytics::query_top_conversations(&x, w(), 10));
    assert_eq!((text(&rows[0][0]), integer(&rows[0][1])), ("co".to_string(), 1));
    let rows = run(&conn, &analytics::query_error_rate(&x, w(), &m));
    let rate = records::error_rate(optional_text(&rows[0][0]), integer(&rows[0][1]) as usize, integer(&rows[0][2]) as usize);
    assert_eq!((rate.errors, rate.total), (1, 2));
    let rows = run(&conn, &analytics::query_truncation_rate(&x, w(), &m));
    let rate = records::truncation_rate(optional_text(&rows[0][0]), integer(&rows[0][1]) as usize, integer(&rows[0][2]) as usize);
    assert_eq!((rate.truncated, rate.total), (1, 2));
    let ratio = rate.rate.unwrap();
    assert_eq!((ratio.numerator, ratio.denominator), (1, 2));
    assert_eq!(run(&conn, &analytics::query_retry_stats(&x, w())).len(), 2);
    let profile = analytics::query_request_param_profile(&x, w());
    assert_eq!(run(&conn, &profile.temperatures).len(), 2);
    assert_eq!(run(&conn, &profile.max_tokens).len(), 2);
    let turns: Vec<i64> =
        run(&conn, &analytics::query_conversation_depth(&x, w())).iter().map(|r| integer(&r[0])).collect();
    assert_eq!(latency_series::conversation_depth(&turns).total_conversations, 1);
    assert_eq!(run(&conn, &analytics::query_latency_by_context(&x, w(), &None)).len(), 2);
    let rows = run(&conn, &series::query_cost_series(&x, w(), 1_000_000_000, &None).ok().unwrap());
    assert_eq!(rows.len(), 2);
    assert!(series::query_cost_series(&x, w(), 0, &None).is_err());
    for all_spans in [false, true] {
        assert_eq!(run(&conn, &series::query_latency_series(&x, w(), 60, &None, all_spans)).len(), 2);
        assert!(!run(&conn, &series::query_calls_series(&x, w(), 60, all_spans)).is_empty());
    }
    for sort in [
        TopSpanSort::TotalTokens,
        TopSpanSort::Duration,
        TopSpanSort::OutputInputRatio,
        TopSpanSort::CacheEfficiency,
    ] {
        assert_eq!(run(&conn, &calls::query_top_spans(&x, w(), 5, sort, false)).len(), 2);
    }
    assert_eq!(run(&conn, &calls::query_top_spans(&x, w(), 5, TopSpanSort::TotalTokens, true)).len(), 1);
    assert_eq!(run(&conn, &calls::query_top_spans(&x, w(), 1, TopSpanSort::TotalTokens, false)).len(), 1);
    let all = run(&conn, &calls::query_all_calls(&x, w()));
    assert_eq!(all.len(), 2);
    let top = run(&conn, &calls::query_top_spans(&x, w(), 5, TopSpanSort::TotalTokens, false));
    assert_eq!(all, top);
    let s = calls::query_genai_capabilities(w());
    assert_eq!(s.sql.matches('?').count(), s.values.len());
}

#[test]
fn all_calls_are_read_the_largest_first() {
    let conn = setup_test_db();
    for i in 0..250 {
        let attributes = format!(r#"{{"model":"m","input_tokens":{},"session.id":"s{}"}}"#, i, i % 7);
        insert_usage(&conn, 5_000_000_000 + i, 1, &attributes);
    }
    insert_usage(&conn, 50_000_000_000, 1, r#"{"model":"m","input_tokens":9000}"#);
    let rows = run(&conn, &calls::query_all_calls(&vocabulary(), window(Some(0), Some(10_000_000_000))));
    assert_eq!(rows.len(), 250);
    let inputs: Vec<i64> = rows.iter().map(|r| integer(&r[8])).collect();
    assert_eq!(inputs, (0..250).rev().collect::<Vec<i64>>());
}

#[test]
fn calls_points_are_labelled() {
    let p = series::calls_point(7, Some("m".to_string()), 3, false);
    assert_eq!((p.timestamp, p.model.as_deref(), p.name.as_deref(), p.requests), (7, Some("m"), None, 3));
    let p = series::calls_point(7, Some("n".to_string()), 3, true);
    assert_eq!((p.model.as_deref(), p.name.as_deref()), (None, Some("n")));
}

#[test]
fn tool_times_are_averaged() {
    let u = tools::tool_usage("t".to_string(), 4, 1, 3, 9_000_000);
    assert_eq!((u.count, u.error_count, u.success_count, u.total_duration_ms), (4, 1, 3, 9));
}

#[test]
fn identities_keep_all_requests() {
    let row = |model: &str, request: &str, response: &str, requests| ModelUsageRow {
        model: model.to_string(),
        request_model: Some(request.to_string()),
        response_model: Some(response.to_string()),
        input_tokens: 10,
        output_tokens: 1,
        requests,
    };
    let usage = model_usage(&vec![row("p/a", "a", "a", 2), row("p/a", "a", "b", 3), row("q/a", "a", "a", 5)]);
    assert_eq!(usage.iter().map(|u| u.requests).sum::<usize>(), 10);
    let a = usage.iter().find(|u| u.model == "p/a").unwrap();
    assert_eq!((a.requests, a.rerouted_count, a.response_model.as_deref()), (5, 3, Some("b")));
    assert!(a.rerouted_count <= a.requests);
}
