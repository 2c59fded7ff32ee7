//! Listings of stored records, run against a database.
use otelite::filter::{
    field_to_sql, json_key_accessor, predicate_to_sql, sql_operator, Operator, QueryPredicate, QueryValue,
};
use otelite::error::StorageError;
use otelite::listing::{self, QueryParams, TraceScan, TraceSearch};
use otelite::records::{self, MetricKind, StorageStats, StoreCounts};
use otelite::sql::{SqlValue, Statement};
use rusqlite::types::Value;
use rusqlite::Connection;

const SCHEMA: &str = "
CREATE TABLE logs (
    id INTEGER PRIMARY KEY, timestamp INTEGER NOT NULL, observed_timestamp INTEGER, trace_id TEXT,
    span_id TEXT, severity_number INTEGER NOT NULL, severity_text TEXT, body TEXT, attributes TEXT,
    resource TEXT, scope TEXT
);
CREATE VIRTUAL TABLE logs_fts USING fts5(body, content='logs', content_rowid='id');
CREATE TRIGGER logs_fts_insert AFTER INSERT ON logs BEGIN
    INSERT INTO logs_fts(rowid, body) VALUES (new.id, new.body);
END;
CREATE TABLE spans (
    id INTEGER PRIMARY KEY, trace_id TEXT NOT NULL, span_id TEXT NOT NULL, parent_span_id TEXT,
    name TEXT NOT NULL, kind INTEGER NOT NULL, start_time INTEGER NOT NULL, end_time INTEGER NOT NULL,
    attributes TEXT, events TEXT, links TEXT, status_code INTEGER, status_message TEXT, resource TEXT,
    scope TEXT, created_at INTEGER DEFAULT 0
);
CREATE TABLE metrics (
    id INTEGER PRIMARY KEY, name TEXT NOT NULL, description TEXT, unit TEXT, metric_type INTEGER NOT NULL,
    timestamp INTEGER NOT NULL, value_int INTEGER, value_double REAL, value_histogram TEXT,
    value_summary TEXT, attributes TEXT, resource TEXT
);
";

fn setup_test_db() -> Connection {
    let conn = Connection::open_in_memory().unwrap();
    conn.execute_batch(SCHEMA).unwrap();
    conn
}

fn bind(value: &SqlValue) -> Value {
    match value {
        SqlValue::Null => Value::Null,
        SqlValue::Integer(n) => Value::Integer(*n),
        SqlValue::Text(t) => Value::Text(t.clone()),
        SqlValue::Number(bits) => Value::Real(f64::from_bits(*bits)),
    }
}

/// Runs a statement and returns its rows.
fn run(conn: &Connection, s: &Statement) -> Vec<Vec<Value>> {
    let mut stmt = conn.prepare(&s.sql).unwrap();
    let columns = stmt.column_count();
    let rows = stmt
        .query_map(rusqlite::params_from_iter(s.values.iter().map(bind)), |row| {
            (0..columns).map(|i| row.get::<_, Value>(i)).collect::<Result<Vec<_>, _>>()
        })
        .unwrap();
    rows.map(|r| r.unwrap()).collect()
}

#[allow(dead_code)]
fn integer(v: &Value) -> i64 {
    match v {
        Value::Integer(n) => *n,
        other => panic!("no integer: {:?}", other),
    }
}

#[allow(dead_code)]
fn optional_integer(v: &Value) -> Option<i64> {
    match v {
        Value::Null => None,
        other => Some(integer(other)),
    }
}

#[allow(dead_code)]
fn number(v: &Value) -> f64 {
    match v {
        Value::Real(x) => *x,
        Value::Integer(n) => *n as f64,
        other => panic!("no number: {:?}", other),
    }
}

#[allow(dead_code)]
fn text(v: &Value) -> String {
    match v {
        Value::Text(t) => t.clone(),
        other => panic!("no text: {:?}", other),
    }
}

#[allow(dead_code)]
fn optional_text(v: &Value) -> Option<String> {
    match v {
        Value::Null => None,
        other => Some(text(other)),
    }
}

fn scalar(conn: &Connection, sql: &str) -> Option<i64> {
    conn.query_row(sql, [], |row| row.get::<_, Option<i64>>(0)).ok().flatten()
}

fn get_stats(conn: &Connection) -> StorageStats {
    records::get_stats(&StoreCounts {
        logs: scalar(conn, records::COUNT_LOGS).unwrap(),
        spans: scalar(conn, records::COUNT_SPANS).unwrap(),
        metrics: scalar(conn, records::COUNT_METRICS).unwrap(),
        oldest_log: scalar(conn, records::OLDEST_LOG),
        oldest_span: scalar(conn, records::OLDEST_SPAN),
        oldest_metric: scalar(conn, records::OLDEST_METRIC),
        newest_log: scalar(conn, records::NEWEST_LOG),
        newest_span: scalar(conn, records::NEWEST_SPAN),
        newest_metric: scalar(conn, records::NEWEST_METRIC),
        page_count: scalar(conn, "PRAGMA page_count"),
        page_size: scalar(conn, "PRAGMA page_size"),
    })
}

fn column(conn: &Connection, table: &str, name: &str) -> usize {
    let stmt = conn.prepare(&format!("SELECT * FROM {}", table)).unwrap();
    stmt.column_index(name).unwrap()
}

fn latest(conn: &Connection, params: &QueryParams) -> Vec<(String, i64)> {
    let name = column(conn, "metrics", "name");
    let ts = column(conn, "metrics", "timestamp");
    run(conn, &listing::query_latest_metrics(params).unwrap())
        .iter()
        .map(|r| (text(&r[name]), integer(&r[ts])))
        .collect()
}

fn insert_counter(conn: &Connection, name: &str, ts: i64) {
    conn.execute(
        "INSERT INTO metrics (name, metric_type, timestamp, value_int, attributes, resource)
         VALUES (?1, 1, ?2, 1, '{}', '{}')",
        (name, ts),
    )
    .unwrap();
}

fn insert_plain_span(conn: &Connection, trace: &str, start: i64, end: i64) {
    conn.execute(
        "INSERT INTO spans (trace_id, span_id, name, kind, start_time, end_time, attributes, events, resource, status_code)
         VALUES (?1, ?1 || '-s', 'n', 0, ?2, ?3, '{}', '[]', '{}', 0)",
        (trace, start, end),
    )
    .unwrap();
}

fn trace_list(conn: &Connection, params: &QueryParams, limit: usize) -> Vec<(String, i64)> {
    let traces = match listing::trace_search(params, limit).ok().unwrap() {
        TraceSearch::Nothing => Vec::new(),
        TraceSearch::Check(s) => {
            if run(conn, &s).is_empty() {
                Vec::new()
            } else {
                vec![params.trace_id.clone().unwrap()]
            }
        }
        TraceSearch::Scan(s) => {
            let ids: Vec<String> = run(conn, &s).iter().map(|r| text(&r[0])).collect();
            listing::newest_traces(&ids, limit)
        }
    };
    if traces.is_empty() {
        return Vec::new();
    }
    let trace = column(conn, "spans", "trace_id");
    let start = column(conn, "spans", "start_time");
    run(conn, &listing::fetch_traces(&traces)).iter().map(|r| (text(&r[trace]), integer(&r[start]))).collect()
}

fn equals(field: &str, value: &str) -> QueryPredicate {
    QueryPredicate {
        field: field.to_string(),
        operator: Operator::Equal,
        value: QueryValue::String(value.to_string()),
    }
}

#[test]
fn test_query_logs_empty() {
    let conn = setup_test_db();
    let logs = run(&conn, &listing::query_logs(&QueryParams::default()).unwrap());
    assert_eq!(logs.len(), 0);
}

#[test]
fn test_get_stats_empty() {
    let conn = setup_test_db();
    let stats = get_stats(&conn);
    assert_eq!(stats.log_count, 0);
    assert_eq!(stats.span_count, 0);
    assert_eq!(stats.metric_count, 0);
    assert_eq!(stats.oldest_timestamp, None);
    assert_eq!(stats.newest_timestamp, None);
}

#[test]
fn test_get_stats_min_max_across_tables() {
    let conn = setup_test_db();
    conn.execute("INSERT INTO logs (timestamp, severity_number, body) VALUES (500, 9, 'old')", []).unwrap();
    conn.execute(
        "INSERT INTO spans (trace_id, span_id, name, kind, start_time, end_time)
         VALUES ('t1', 's1', 'n', 0, 1000, 9000)",
        [],
    )
    .unwrap();
    conn.execute("INSERT INTO metrics (name, metric_type, timestamp) VALUES ('m', 1, 7000)", []).unwrap();

    let stats = get_stats(&conn);
    assert_eq!(stats.log_count, 1);
    assert_eq!(stats.span_count, 1);
    assert_eq!(stats.metric_count, 1);
    assert_eq!(stats.oldest_timestamp, Some(500));
    assert_eq!(stats.newest_timestamp, Some(9000));
    assert!(stats.storage_size_bytes > 0);
}

#[test]
fn unknown_page_size_counts_as_four_kib() {
    let counts = |page_count, page_size| StoreCounts {
        logs: 1,
        spans: 2,
        metrics: 3,
        oldest_log: None,
        oldest_span: Some(7),
        oldest_metric: Some(5),
        newest_log: Some(9),
        newest_span: None,
        newest_metric: Some(11),
        page_count,
        page_size,
    };
    assert_eq!(records::get_stats(&counts(Some(3), None)).storage_size_bytes, 12_288);
    assert_eq!(records::get_stats(&counts(None, Some(512))).storage_size_bytes, 0);
    let stats = records::get_stats(&counts(Some(3), Some(1024)));
    assert_eq!(stats.storage_size_bytes, 3_072);
    assert_eq!(stats.oldest_timestamp, Some(5));
    assert_eq!(stats.newest_timestamp, Some(11));
}

#[test]
fn test_query_latest_metrics_per_name() {
    let conn = setup_test_db();
    for (name, ts) in [("alpha", 100i64), ("alpha", 200), ("beta", 150), ("beta", 50)] {
        insert_counter(&conn, name, ts);
    }
    let got = latest(&conn, &QueryParams::default());
    assert_eq!(got, vec![("alpha".to_string(), 200), ("beta".to_string(), 150)]);
}

#[test]
fn test_query_latest_metrics_ties_all_returned() {
    let conn = setup_test_db();
    for _ in 0..2 {
        insert_counter(&conn, "a", 100);
    }
    let metrics = latest(&conn, &QueryParams::default());
    assert_eq!(metrics.len(), 2);
    assert!(metrics.iter().all(|m| m.0 == "a" && m.1 == 100));
}

#[test]
fn test_query_latest_metrics_window_applied_after_dedup() {
    let conn = setup_test_db();
    insert_counter(&conn, "a", 1000);
    insert_counter(&conn, "a", 2000);
    insert_counter(&conn, "b", 500);

    let params = QueryParams { start_time: Some(1500), end_time: Some(1500), ..Default::default() };
    assert!(latest(&conn, &params).is_empty());

    let params = QueryParams { start_time: Some(1999), end_time: Some(2001), ..Default::default() };
    assert_eq!(latest(&conn, &params), vec![("a".to_string(), 2000)]);
}

#[test]
fn test_query_latest_metrics_name_predicate_not_ambiguous() {
    let conn = setup_test_db();
    insert_counter(&conn, "a", 100);
    insert_counter(&conn, "b", 200);
    let mut params = QueryParams::default();
    params.predicates.push(equals("name", "b"));
    let metrics = latest(&conn, &params);
    assert_eq!(metrics.len(), 1);
    assert_eq!(metrics[0].0, "b");
}

#[test]
fn test_query_distinct_metric_names_sorted() {
    let conn = setup_test_db();
    for name in ["zeta", "alpha", "zeta", "mid"] {
        insert_counter(&conn, name, 1);
    }
    let names: Vec<String> =
        run(&conn, &Statement::new(listing::DISTINCT_METRIC_NAMES)).iter().map(|r| text(&r[0])).collect();
    assert_eq!(names, vec!["alpha".to_string(), "mid".to_string(), "zeta".to_string()]);
}

#[test]
fn test_distinct_resource_keys_dedups_and_tolerates_corrupt_json() {
    let conn = setup_test_db();
    for i in 0..5 {
        conn.execute(
            "INSERT INTO logs (timestamp, severity_number, body, resource)
             VALUES (?1, 9, 'b', '{\"attributes\":{\"service.name\":\"svc\",\"k\":\"v\"}}')",
            [i as i64],
        )
        .unwrap();
    }
    conn.execute(
        "INSERT INTO logs (timestamp, severity_number, body, resource) VALUES (99, 9, 'b', '{not json')",
        [],
    )
    .unwrap();
    let keys: Vec<String> = run(&conn, &records::distinct_resource_keys("logs").unwrap())
        .iter()
        .map(|r| text(&r[0]))
        .collect();
    assert_eq!(keys.len(), 2);
    assert!(keys.contains(&"service.name".to_string()));
    assert!(keys.contains(&"k".to_string()));
    assert!(run(&conn, &records::distinct_resource_keys("spans").unwrap()).is_empty());
    assert!(run(&conn, &records::distinct_resource_keys("metrics").unwrap()).is_empty());
}

#[test]
fn test_distinct_resource_keys_unknown_signal() {
    match records::distinct_resource_keys("traces") {
        Err(StorageError::QueryError(m)) => assert_eq!(m, "Unknown signal type: traces"),
        _ => panic!("the signal is unknown"),
    }
}

#[test]
fn test_trace_list_ordering_matches_group_by_max() {
    let conn = setup_test_db();
    let spans: &[(i64, i64, &str)] = &[
        (100, 110, "t1"),
        (90, 95, "t1"),
        (10, 15, "t1"),
        (95, 96, "t2"),
        (99, 105, "t3"),
        (80, 81, "t4"),
    ];
    for (start, end, trace) in spans {
        insert_plain_span(&conn, trace, *start, *end);
    }
    let params = QueryParams { start_time: Some(0), end_time: Some(1_000_000), ..Default::default() };
    let got = trace_list(&conn, &params, 3);
    assert_eq!(got.len(), 5);
    assert!(!got.iter().any(|s| s.0 == "t4"));
    let starts: Vec<i64> = got.iter().map(|s| s.1).collect();
    assert_eq!(starts, vec![100, 99, 95, 90, 10]);
}

#[test]
fn test_trace_list_stops_at_limit() {
    let conn = setup_test_db();
    for i in 0..10 {
        insert_plain_span(&conn, &format!("t{}", i), 1000 - i, 1000 - i + 1);
    }
    let got = trace_list(&conn, &QueryParams::default(), 4);
    let ids: Vec<&str> = got.iter().map(|s| s.0.as_str()).collect();
    assert_eq!(ids, vec!["t0", "t1", "t2", "t3"]);
    assert!(trace_list(&conn, &QueryParams::default(), 0).is_empty());
}

#[test]
fn test_trace_list_specific_trace_window_mismatch_empty() {
    let conn = setup_test_db();
    insert_plain_span(&conn, "t1", 100, 110);
    let mut params = QueryParams {
        trace_id: Some("t1".to_string()),
        start_time: Some(200),
        end_time: Some(300),
        ..Default::default()
    };
    assert!(trace_list(&conn, &params, 10).is_empty());
    params.start_time = Some(0);
    params.end_time = Some(1_000);
    let got = trace_list(&conn, &params, 10);
    assert_eq!(got.len(), 1);
    assert_eq!(got[0].0, "t1");
}

#[test]
fn only_traces_with_a_matching_span_are_listed() {
    let conn = setup_test_db();
    insert_plain_span(&conn, "t1", 100, 110);
    insert_plain_span(&conn, "t2", 90, 95);
    insert_plain_span(&conn, "t3", 80, 81);
    let long = |value: QueryValue| QueryPredicate {
        field: "duration".to_string(),
        operator: Operator::GreaterThanOrEqual,
        value,
    };
    let params = QueryParams { predicates: vec![long(QueryValue::Duration(5))], ..Default::default() };
    let got = trace_list(&conn, &params, 10);
    let ids: Vec<&str> = got.iter().map(|s| s.0.as_str()).collect();
    assert_eq!(ids, vec!["t1", "t2"]);
    let one = |trace: &str| QueryParams {
        trace_id: Some(trace.to_string()),
        predicates: vec![long(QueryValue::Duration(5))],
        ..Default::default()
    };
    assert_eq!(trace_list(&conn, &one("t2"), 10).len(), 1);
    assert!(trace_list(&conn, &one("t3"), 10).is_empty());
    let mut refused = QueryParams { predicates: vec![long(QueryValue::Number(5))], ..Default::default() };
    assert!(listing::trace_search(&refused, 10).is_err());
    assert!(listing::trace_search(&refused, 0).is_ok());
    refused.trace_id = Some("t1".to_string());
    assert!(listing::trace_search(&refused, 0).is_err());
}

#[test]
fn scans_stop_once_they_have_enough_traces() {
    let mut scan = TraceScan::new(2);
    assert!(!scan.offer("a".to_string()));
    assert!(!scan.offer("a".to_string()));
    assert!(scan.offer("b".to_string()));
    assert!(scan.offer("c".to_string()));
    assert_eq!(scan.seen, vec!["a", "b"]);
    let ids: Vec<String> = ["x", "y", "x", "z"].iter().map(|s| s.to_string()).collect();
    assert_eq!(listing::newest_traces(&ids, 2), vec!["x", "y"]);
    assert_eq!(listing::newest_traces(&ids, 9), vec!["x", "y", "z"]);
    assert!(listing::newest_traces(&ids, 0).is_empty());
}

#[test]
fn test_field_to_sql_for_attribute_field() {
    let sql = field_to_sql("logs", "gen_ai.system").unwrap();
    assert_eq!(sql, "json_extract(attributes, '$.\"gen_ai.system\"')");
}

#[test]
fn test_field_to_sql_for_explicit_attribute_prefix() {
    let sql = field_to_sql("logs", "attributes.http.method").unwrap();
    assert_eq!(sql, "json_extract(attributes, '$.\"http.method\"')");
}

#[test]
fn test_field_to_sql_for_resource_prefix() {
    let sql = field_to_sql("logs", "resource.service.name").unwrap();
    assert_eq!(sql, "json_extract(resource, '$.attributes.\"service.name\"')");
}

#[test]
fn fields_with_a_column_of_their_own() {
    assert_eq!(field_to_sql("logs", "severity").unwrap(), "severity_number");
    assert_eq!(field_to_sql("logs", "severity_number").unwrap(), "severity_number");
    assert_eq!(field_to_sql("spans", "parent_span_id").unwrap(), "parent_span_id");
    assert_eq!(field_to_sql("metrics", "unit").unwrap(), "unit");
    assert_eq!(field_to_sql("metrics", "body").unwrap(), "json_extract(attributes, '$.\"body\"')");
    assert_eq!(field_to_sql("spans", "severity").unwrap(), "json_extract(attributes, '$.\"severity\"')");
    let session = "CASE WHEN json_valid(attributes) THEN json_extract(attributes, '$.\"session.id\"') END";
    assert_eq!(field_to_sql("spans", "session.id").unwrap(), session);
    assert_eq!(field_to_sql("logs", "attributes.session.id").unwrap(), session);
}

#[test]
fn test_json_key_accessor_quotes_dotted_keys() {
    assert_eq!(json_key_accessor("service.name"), ".\"service.name\"");
}

#[test]
fn test_predicate_to_sql_for_attribute_equality() {
    let mut params: Vec<SqlValue> = Vec::new();
    let sql = predicate_to_sql("logs", &equals("gen_ai.system", "anthropic"), &mut params).unwrap();
    assert_eq!(sql, "json_extract(attributes, '$.\"gen_ai.system\"') = ?");
    assert_eq!(params.len(), 1);
}

#[test]
fn test_predicate_to_sql_for_resource_equality() {
    let mut params: Vec<SqlValue> = Vec::new();
    let sql = predicate_to_sql("logs", &equals("resource.service.name", "gateway"), &mut params).unwrap();
    assert_eq!(sql, "json_extract(resource, '$.attributes.\"service.name\"') = ?");
    assert_eq!(params.len(), 1);
}

#[test]
fn test_span_duration_predicate_requires_duration_value() {
    let mut params = Vec::new();
    let predicate = QueryPredicate {
        field: "duration".to_string(),
        operator: Operator::GreaterThan,
        value: QueryValue::Number(100.0f64.to_bits()),
    };
    match predicate_to_sql("spans", &predicate, &mut params) {
        Err(StorageError::QueryError(m)) => assert!(m.contains("requires a duration value like 500ms")),
        _ => panic!("a number is no duration"),
    }
    assert!(params.is_empty());
}

#[test]
fn predicates_compare_with_every_kind_of_value() {
    let mut params = Vec::new();
    let duration = QueryPredicate {
        field: "duration".to_string(),
        operator: Operator::GreaterThanOrEqual,
        value: QueryValue::Duration(500),
    };
    let sql = predicate_to_sql("spans", &duration, &mut params).unwrap();
    assert_eq!(sql, "((end_time - start_time) >= ?)");
    assert!(matches!(params[0], SqlValue::Integer(500)));
    let sql = predicate_to_sql("logs", &duration, &mut params).unwrap();
    assert_eq!(sql, "json_extract(attributes, '$.\"duration\"') >= ?");
    let number = QueryPredicate {
        field: "x".to_string(),
        operator: Operator::LessThan,
        value: QueryValue::Number(1.5f64.to_bits()),
    };
    let sql = predicate_to_sql("metrics", &number, &mut params).unwrap();
    assert_eq!(sql, "json_extract(attributes, '$.\"x\"') < ?");
    match params[2] {
        SqlValue::Number(bits) => assert_eq!(f64::from_bits(bits), 1.5),
        _ => panic!("a number is bound"),
    }
}

#[test]
fn containment_needs_a_text() {
    let mut params = Vec::new();
    let holds = QueryPredicate {
        field: "body".to_string(),
        operator: Operator::Contains,
        value: QueryValue::String("oops".to_string()),
    };
    assert_eq!(predicate_to_sql("logs", &holds, &mut params).unwrap(), "body LIKE ?");
    match &params[0] {
        SqlValue::Text(t) => assert_eq!(t, "%oops%"),
        _ => panic!("a text is bound"),
    }
    let number = QueryPredicate {
        field: "body".to_string(),
        operator: Operator::Contains,
        value: QueryValue::Number(0),
    };
    match predicate_to_sql("logs", &number, &mut params) {
        Err(StorageError::QueryError(m)) => assert_eq!(
            m,
            "Structured query operator 'contains' for field 'body' requires a quoted string value"
        ),
        _ => panic!("a number cannot be contained"),
    }
    assert_eq!(params.len(), 1);
}

#[test]
fn every_operator_has_its_sql() {
    let all = [
        (Operator::Equal, "="),
        (Operator::NotEqual, "!="),
        (Operator::GreaterThan, ">"),
        (Operator::LessThan, "<"),
        (Operator::GreaterThanOrEqual, ">="),
        (Operator::LessThanOrEqual, "<="),
        (Operator::Contains, "LIKE"),
    ];
    for (operator, sql) in all {
        assert_eq!(sql_operator(&operator), sql);
    }
}

#[test]
fn test_query_logs_with_structured_attribute_and_resource_predicates() {
    let conn = setup_test_db();
    conn.execute(
        "INSERT INTO logs (timestamp, observed_timestamp, trace_id, span_id, severity_number, severity_text,
                           body, attributes, resource, scope)
         VALUES (1000, 1000, 'trace-a', 'span-a', 9, 'INFO', 'matching log body', ?1, ?2, '{}')",
        (r#"{"gen_ai.system":"anthropic"}"#, r#"{"attributes":{"service.name":"gateway"}}"#),
    )
    .unwrap();
    conn.execute(
        "INSERT INTO logs (timestamp, severity_number, body, attributes, resource)
         VALUES (1001, 9, 'other log body', '{\"gen_ai.system\":\"openai\"}', '{}')",
        [],
    )
    .unwrap();
    let params = QueryParams {
        predicates: vec![
            equals("gen_ai.system", "anthropic"),
            equals("resource.service.name", "gateway"),
        ],
        ..Default::default()
    };
    let logs = run(&conn, &listing::query_logs(&params).unwrap());
    assert_eq!(logs.len(), 1);
    assert_eq!(text(&logs[0][column(&conn, "logs", "body")]), "matching log body");
}

#[test]
fn logs_are_narrowed_by_every_part() {
    let conn = setup_test_db();
    for i in 0..6i64 {
        conn.execute(
            "INSERT INTO logs (timestamp, trace_id, span_id, severity_number, body, attributes, resource)
             VALUES (?1, ?2, ?3, ?4, ?5, '{}', '{}')",
            (100 + i, format!("t{}", i % 2), format!("s{}", i), 5 + i, format!("word{} common", i)),
        )
        .unwrap();
    }
    let body = column(&conn, "logs", "body");
    let bodies = |params: &QueryParams| -> Vec<String> {
        run(&conn, &listing::query_logs(params).unwrap()).iter().map(|r| text(&r[body])).collect()
    };
    assert_eq!(bodies(&QueryParams { limit: Some(2), ..Default::default() }), vec!["word5 common", "word4 common"]);
    assert_eq!(bodies(&QueryParams { start_time: Some(104), ..Default::default() }).len(), 2);
    assert_eq!(bodies(&QueryParams { end_time: Some(101), ..Default::default() }).len(), 2);
    assert_eq!(bodies(&QueryParams { trace_id: Some("t1".to_string()), ..Default::default() }).len(), 3);
    assert_eq!(
        bodies(&QueryParams { span_id: Some("s3".to_string()), ..Default::default() }),
        vec!["word3 common"]
    );
    assert_eq!(bodies(&QueryParams { min_severity: Some(9), ..Default::default() }).len(), 2);
    assert_eq!(
        bodies(&QueryParams { search_text: Some("word2".to_string()), ..Default::default() }),
        vec!["word2 common"]
    );
    let all = QueryParams {
        start_time: Some(100),
        end_time: Some(105),
        trace_id: Some("t0".to_string()),
        span_id: Some("s4".to_string()),
        min_severity: Some(1),
        search_text: Some("common".to_string()),
        predicates: vec![equals("body", "word4 common")],
        limit: Some(10),
    };
    let s = listing::query_logs(&all).unwrap();
    assert_eq!(s.sql.matches('?').count(), s.values.len());
    assert_eq!(bodies(&all), vec!["word4 common"]);
}

#[test]
fn the_first_refused_predicate_refuses_the_listing() {
    let bad = |field: &str| QueryPredicate {
        field: field.to_string(),
        operator: Operator::Contains,
        value: QueryValue::Number(0),
    };
    let params = QueryParams {
        predicates: vec![equals("name", "x"), bad("first"), bad("second")],
        ..Default::default()
    };
    for r in [listing::query_spans(&params), listing::query_metrics(&params), listing::query_latest_metrics(&params)] {
        match r {
            Err(StorageError::QueryError(m)) => assert!(m.contains("'first'")),
            _ => panic!("the predicate is refused"),
        }
    }
}

#[test]
fn metrics_are_listed_newest_first() {
    let conn = setup_test_db();
    for ts in [5, 9, 7] {
        insert_counter(&conn, "m", ts);
    }
    let ts = column(&conn, "metrics", "timestamp");
    let params = QueryParams { start_time: Some(6), limit: Some(5), ..Default::default() };
    let rows = run(&conn, &listing::query_metrics(&params).unwrap());
    assert_eq!(rows.iter().map(|r| integer(&r[ts])).collect::<Vec<_>>(), vec![9, 7]);
}

#[test]
fn test_query_spans_session_id_predicate_returns_only_that_session() {
    let conn = setup_test_db();
    let insert = |attrs: &str| {
        conn.execute(
            "INSERT INTO spans (trace_id, span_id, name, kind, start_time, end_time, status_code, attributes, resource, events, links, scope)
             VALUES ('t', 's', 'test.span', 0, 1000000000, 2000000000, 0, ?1, '{}', '[]', '[]', '{}')",
            [attrs],
        )
        .unwrap();
    };
    insert(r#"{"session.id":"ses_a","x":"1"}"#);
    insert(r#"{"session.id":"ses_a","x":"1"}"#);
    insert(r#"{"session.id":"ses_b","x":"1"}"#);
    insert(r#"{"session.id":null,"x":"1"}"#);
    insert("{");

    let params = QueryParams { predicates: vec![equals("session.id", "ses_a")], ..Default::default() };
    assert_eq!(run(&conn, &listing::query_spans(&params).unwrap()).len(), 2);

    let params = QueryParams { predicates: vec![equals("attributes.session.id", "ses_b")], ..Default::default() };
    let spans = run(&conn, &listing::query_spans(&params).unwrap());
    assert_eq!(spans.len(), 1);
    assert!(text(&spans[0][column(&conn, "spans", "attributes")]).contains("\"ses_b\""));
}

#[test]
fn test_query_spans_session_id_predicate_plan_uses_expression_index() {
    let conn = setup_test_db();
    conn.execute_batch(
        "CREATE INDEX idx_spans_session_id ON spans (CASE WHEN json_valid(attributes) THEN json_extract(attributes, '$.\"session.id\"') END)
         WHERE json_valid(attributes) AND json_extract(attributes, '$.\"session.id\"') IS NOT NULL",
    )
    .unwrap();
    let params =
        QueryParams { predicates: vec![equals("session.id", "ses_x")], limit: Some(10), ..Default::default() };
    let s = listing::query_spans(&params).unwrap();
    assert_eq!(
        s.sql,
        "SELECT * FROM spans WHERE 1=1 AND CASE WHEN json_valid(attributes) THEN json_extract(attributes, '$.\"session.id\"') END = ? AND json_valid(attributes) AND json_extract(attributes, '$.\"session.id\"') IS NOT NULL ORDER BY start_time DESC LIMIT ?"
    );
    let plan = Statement { sql: format!("EXPLAIN QUERY PLAN {}", s.sql), values: s.values };
    let text_of_plan: String = run(&conn, &plan).iter().map(|r| text(&r[3])).collect();
    assert!(text_of_plan.contains("idx_spans_session_id"), "got: {}", text_of_plan);
}

#[test]
fn metric_kinds_by_their_number() {
    assert_eq!(records::metric_kind(0), MetricKind::Gauge);
    assert_eq!(records::metric_kind(1), MetricKind::Counter);
    assert_eq!(records::metric_kind(2), MetricKind::Histogram);
    assert_eq!(records::metric_kind(3), MetricKind::Summary);
    assert_eq!(records::metric_kind(4), MetricKind::Unknown);
    assert_eq!(records::metric_kind(-1), MetricKind::Unknown);
}
