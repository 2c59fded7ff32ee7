//! Statements that read token usage from where each agent reports it: one agent keeps cumulative
//! counters, one records histograms of each turn, and one records a span for each request.
use crate::analytics;
use crate::analytics::{TokenExprs, Window};
use crate::cache;
use crate::error::StorageError;
use crate::filter;
use crate::group;
use crate::layout;
use crate::listing;
use crate::sql::{Bind, Query, SqlValue, Statement};
use crate::text;
use vstd::prelude::*;

verus! {

/// The value of a counter.
pub const COUNTER_VALUE: &'static str = "COALESCE(value_int, CAST(value_double AS INTEGER))";

/// The counter of tokens.
pub const TOKEN_COUNTER: &'static str = "opencode.token.usage";

/// The counter of calls.
pub const CALL_COUNTER: &'static str = "opencode.model.usage";

/// The histogram of the tokens of a turn.
pub const TURN_HISTOGRAM: &'static str = "codex.turn.token_usage";

/// A label of a metric; none where its attributes cannot be read.
pub open spec fn label_expr(path: Seq<char>) -> Seq<char> {
    "CASE WHEN json_valid(attributes) THEN json_extract(attributes, '"@ + path + "') END"@
}

fn label_expr_of(path: &str) -> (s: String)
    ensures
        s@ == label_expr(path@),
{
    let mut s = "CASE WHEN json_valid(attributes) THEN json_extract(attributes, '".to_owned();
    s.append(path);
    s.append("') END");
    s
}

/// Labels of a metric.
pub open spec fn label_exprs(paths: Seq<Seq<char>>) -> Seq<Seq<char>> {
    Seq::new(paths.len(), |i: int| label_expr(paths[i]))
}

/// The labels of the counter of tokens: the agent, the model, the kind of token and the session.
pub open spec fn token_labels() -> Seq<Seq<char>> {
    seq!["$.agent"@, "$.model"@, "$.type"@, "$.\"session.id\""@]
}

/// Names the labels of the counter of tokens.
pub fn token_label_paths() -> (paths: Vec<String>)
    ensures
        group::ids(paths@) == token_labels(),
{
    let paths: Vec<String> = vec![
        "$.agent".to_owned(),
        "$.model".to_owned(),
        "$.type".to_owned(),
        "$.\"session.id\"".to_owned(),
    ];
    assert(group::ids(paths@) =~= token_labels());
    paths
}

/// Reads the labels, the time and the value of each point of a counter in a window.
pub open spec fn counter_window_query(name: Seq<char>, paths: Seq<Seq<char>>, window: Window) -> Query {
    let columns = "SELECT "@ + layout::joined(label_exprs(paths), ", "@) + ", timestamp, "@ + COUNTER_VALUE@
        + " FROM metrics WHERE name = ?"@;
    listing::in_window(
        listing::begin(columns).with(Bind::Text(name)),
        window.start,
        window.end,
    )
}

/// The statement that reads the points of a counter in a window.
pub fn query_counter_window(name: &str, paths: &Vec<String>, window: Window) -> (s: Statement)
    ensures
        s@ == counter_window_query(name@, group::ids(paths@), window),
{
    let mut exprs: Vec<String> = Vec::new();
    let mut i: usize = 0;
    while i < paths.len()
        invariant
            i <= paths@.len(),
            exprs@.len() == i,
            forall|j: int| 0 <= j < i ==> (#[trigger] exprs@[j])@ == label_expr(paths@[j]@),
        decreases paths@.len() - i,
    {
        exprs.push(label_expr_of(paths[i].as_str()));
        i = i + 1;
    }
    assert(group::ids(exprs@) =~= label_exprs(group::ids(paths@)));
    let mut columns = "SELECT ".to_owned();
    columns.append(layout::join(&exprs, ", ").as_str());
    columns.append(", timestamp, ");
    columns.append(COUNTER_VALUE);
    columns.append(" FROM metrics WHERE name = ?");
    let mut s = Statement::new(columns.as_str());
    s.add_value(SqlValue::Text(name.to_owned()));
    listing::add_window(&mut s, window.start, window.end);
    s
}

/// A label to compare with; an absent label is compared with nothing.
pub open spec fn label_bind(label: Option<Seq<char>>) -> Bind {
    match label {
        Some(t) => Bind::Text(t),
        None => Bind::Null,
    }
}

/// A statement narrowed to one series of a counter.
pub open spec fn in_series(
    query: Query,
    paths: Seq<Seq<char>>,
    labels: Seq<Option<Seq<char>>>,
) -> Query
    decreases paths.len(),
{
    if paths.len() == 0 {
        query
    } else {
        in_series(query, paths.drop_last(), labels.drop_last()).plus(
            " AND "@ + label_expr(paths.last()) + " IS ?"@,
        ).with(label_bind(labels.last()))
    }
}

/// Reads the last value of one series of a counter before a time. Of values at one time the largest
/// counts.
pub open spec fn counter_baseline_query(
    name: Seq<char>,
    paths: Seq<Seq<char>>,
    labels: Seq<Option<Seq<char>>>,
    start: i64,
) -> Query {
    in_series(
        listing::begin(
            "SELECT "@ + COUNTER_VALUE@ + " FROM metrics WHERE name = ? AND timestamp < ?"@,
        ).with(Bind::Text(name)).with(Bind::Integer(start)),
        paths,
        labels,
    ).plus(" ORDER BY timestamp DESC, "@ + COUNTER_VALUE@ + " DESC LIMIT 1"@)
}

/// The statement that reads the last value of one series of a counter before a time.
pub fn query_counter_baseline(name: &str, paths: &Vec<String>, labels: &Vec<Option<String>>, start: i64) -> (s:
    Statement)
    requires
        paths@.len() == labels@.len(),
    ensures
        s@ == counter_baseline_query(name@, group::ids(paths@), group::ids(labels@), start),
{
    let mut sql = "SELECT ".to_owned();
    sql.append(COUNTER_VALUE);
    sql.append(" FROM metrics WHERE name = ? AND timestamp < ?");
    let mut s = Statement::new(sql.as_str());
    s.add_value(SqlValue::Text(name.to_owned()));
    s.add_value(SqlValue::Integer(start));
    let ghost begun = s@;
    let ghost p = group::ids(paths@);
    let ghost l = group::ids(labels@);
    let mut i: usize = 0;
    while i < paths.len()
        invariant
            i <= paths@.len(),
            paths@.len() == labels@.len(),
            p == group::ids(paths@),
            l == group::ids(labels@),
            s@ == in_series(begun, p.take(i as int), l.take(i as int)),
        decreases paths@.len() - i,
    {
        proof {
            assert(p.take(i + 1).drop_last() =~= p.take(i as int));
            assert(l.take(i + 1).drop_last() =~= l.take(i as int));
        }
        let mut clause = " AND ".to_owned();
        clause.append(label_expr_of(paths[i].as_str()).as_str());
        clause.append(" IS ?");
        s.add_text(clause.as_str());
        let value = match &labels[i] {
            Some(t) => SqlValue::Text(t.clone()),
            None => SqlValue::Null,
        };
        s.add_value(value);
        i = i + 1;
    }
    assert(p.take(i as int) =~= p);
    assert(l.take(i as int) =~= l);
    let mut tail = " ORDER BY timestamp DESC, ".to_owned();
    tail.append(COUNTER_VALUE);
    tail.append(" DESC LIMIT 1");
    s.add_text(tail.as_str());
    s
}

/// A statement on the points of one metric in a window.
pub open spec fn on_metric(columns: Seq<char>, name: Seq<char>, window: Window) -> Query {
    listing::in_window(
        listing::begin(columns + " FROM metrics WHERE name = ?"@).with(Bind::Text(name)),
        window.start,
        window.end,
    )
}

fn begin_on_metric(columns: &str, name: &str, window: Window) -> (s: Statement)
    ensures
        s@ == on_metric(columns@, name@, window),
{
    let mut sql = columns.to_owned();
    sql.append(" FROM metrics WHERE name = ?");
    let mut s = Statement::new(sql.as_str());
    s.add_value(SqlValue::Text(name.to_owned()));
    listing::add_window(&mut s, window.start, window.end);
    s
}

/// The agent, the model and the session of a call.
pub const PRESENCE: &'static str =
    "SELECT CASE WHEN json_valid(attributes) THEN json_extract(attributes, '$.agent') END, CASE WHEN json_valid(attributes) THEN json_extract(attributes, '$.model') END, CASE WHEN json_valid(attributes) THEN json_extract(attributes, '$.\"session.id\"') END";

/// The provider and the model of a call.
pub const CALL_PROVIDERS: &'static str =
    "SELECT CASE WHEN json_valid(attributes) THEN json_extract(attributes, '$.provider') END, CASE WHEN json_valid(attributes) THEN json_extract(attributes, '$.model') END";

/// The model, the kind of token and the number of tokens of a turn.
pub const TURN_TOKENS: &'static str =
    "SELECT CASE WHEN json_valid(attributes) THEN json_extract(attributes, '$.model') END, CASE WHEN json_valid(attributes) THEN json_extract(attributes, '$.token_type') END, COALESCE(CASE WHEN json_valid(value_histogram) THEN json_extract(value_histogram, '$[1]') END, 0.0)";

/// The tokens of the turns of each model, by kind, in each bucket.
pub const TURN_BUCKETS: &'static str =
    "SELECT (timestamp / ?) * ? AS bucket, CASE WHEN json_valid(attributes) THEN json_extract(attributes, '$.model') END AS model, CASE WHEN json_valid(attributes) THEN json_extract(attributes, '$.token_type') END AS token_type, SUM(CASE WHEN json_valid(value_histogram) THEN json_extract(value_histogram, '$[1]') ELSE 0 END) AS sum_tokens FROM metrics WHERE name = ? AND json_valid(attributes) AND CASE WHEN json_valid(attributes) THEN json_extract(attributes, '$.model') END IS NOT NULL AND CASE WHEN json_valid(attributes) THEN json_extract(attributes, '$.token_type') END IS NOT NULL";

/// The span is a model request whose attributes can be read.
pub const REQUEST_GUARD: &'static str =
    "name = 'claude_code.llm_request' AND json_valid(attributes)";

/// What is read of the requests of each model, system and session.
pub open spec fn request_mix_columns_text(x: TokenExprs) -> Seq<char> {
    text::flat(
        seq![
            "SELECT "@,
            x.model@,
            " AS model, "@,
            x.system@,
            " AS system, "@,
            filter::SESSION_EXPR@,
            " AS session_id, COALESCE(SUM("@,
            x.input@,
            "), 0) AS input_tokens, COALESCE(SUM("@,
            x.output@,
            "), 0) AS output_tokens, COALESCE(SUM("@,
            x.cache_creation@,
            "), 0) AS cache_creation_tokens, COALESCE(SUM("@,
            x.cache_read@,
            "), 0) AS cache_read_tokens, COUNT(*) AS calls"@,
        ],
    )
}

fn request_mix_columns(x: &TokenExprs) -> (s: String)
    ensures
        s@ == request_mix_columns_text(*x),
{
    let parts: Vec<&str> = vec![
        "SELECT ",
        x.model.as_str(),
        " AS model, ",
        x.system.as_str(),
        " AS system, ",
        filter::SESSION_EXPR,
        " AS session_id, COALESCE(SUM(",
        x.input.as_str(),
        "), 0) AS input_tokens, COALESCE(SUM(",
        x.output.as_str(),
        "), 0) AS output_tokens, COALESCE(SUM(",
        x.cache_creation.as_str(),
        "), 0) AS cache_creation_tokens, COALESCE(SUM(",
        x.cache_read.as_str(),
        "), 0) AS cache_read_tokens, COUNT(*) AS calls",
    ];
    proof {
        assert(text::views(parts@) =~= seq![
            "SELECT "@,
            x.model@,
            " AS model, "@,
            x.system@,
            " AS system, "@,
            filter::SESSION_EXPR@,
            " AS session_id, COALESCE(SUM("@,
            x.input@,
            "), 0) AS input_tokens, COALESCE(SUM("@,
            x.output@,
            "), 0) AS output_tokens, COALESCE(SUM("@,
            x.cache_creation@,
            "), 0) AS cache_creation_tokens, COALESCE(SUM("@,
            x.cache_read@,
            "), 0) AS cache_read_tokens, COUNT(*) AS calls"@,
        ]);
    }
    text::concat(&parts)
}

/// What is read of the requests in each bucket.
pub open spec fn request_bucket_columns_text(x: TokenExprs) -> Seq<char> {
    text::flat(
        seq![
            "SELECT (start_time / ?) * ? AS bucket, "@,
            x.model@,
            " AS model, COALESCE(SUM("@,
            x.input@,
            "), 0) AS input_tokens, COALESCE(SUM("@,
            x.cache_creation@,
            "), 0) AS cache_creation, COALESCE(SUM("@,
            x.cache_read@,
            "), 0) AS cache_read FROM spans WHERE "@,
            REQUEST_GUARD@,
        ],
    )
}

fn request_bucket_columns(x: &TokenExprs) -> (s: String)
    ensures
        s@ == request_bucket_columns_text(*x),
{
    let parts: Vec<&str> = vec![
        "SELECT (start_time / ?) * ? AS bucket, ",
        x.model.as_str(),
        " AS model, COALESCE(SUM(",
        x.input.as_str(),
        "), 0) AS input_tokens, COALESCE(SUM(",
        x.cache_creation.as_str(),
        "), 0) AS cache_creation, COALESCE(SUM(",
        x.cache_read.as_str(),
        "), 0) AS cache_read FROM spans WHERE ",
        REQUEST_GUARD,
    ];
    proof {
        assert(text::views(parts@) =~= seq![
            "SELECT (start_time / ?) * ? AS bucket, "@,
            x.model@,
            " AS model, COALESCE(SUM("@,
            x.input@,
            "), 0) AS input_tokens, COALESCE(SUM("@,
            x.cache_creation@,
            "), 0) AS cache_creation, COALESCE(SUM("@,
            x.cache_read@,
            "), 0) AS cache_read FROM spans WHERE "@,
            REQUEST_GUARD@,
        ]);
    }
    text::concat(&parts)
}

/// The statements behind the roles of agents.
pub struct AgentRolesStatements {
    pub counters: Statement,
    pub presence: Statement,
}

/// The statements that read the tokens and the presence of agents.
pub fn query_agent_roles(window: Window) -> (r: AgentRolesStatements)
    ensures
        r.counters@ == counter_window_query(TOKEN_COUNTER@, token_labels(), window),
        r.presence@ == on_metric(PRESENCE@, CALL_COUNTER@, window),
{
    AgentRolesStatements {
        counters: query_counter_window(TOKEN_COUNTER, &token_label_paths(), window),
        presence: begin_on_metric(PRESENCE, CALL_COUNTER, window),
    }
}

/// The statements behind the mix of providers.
pub struct ProviderMixStatements {
    pub counters: Statement,
    pub providers: Statement,
    pub turns: Statement,
    pub requests: Statement,
}

/// Reads the requests of each model, system and session.
pub open spec fn request_mix_query(x: TokenExprs, window: Window) -> Query {
    analytics::on_spans(request_mix_columns_text(x), REQUEST_GUARD@, window).plus(
        " GROUP BY model, system, session_id"@,
    )
}

/// The statements that read the tokens of each model and who provides it.
pub fn query_provider_mix(x: &TokenExprs, window: Window) -> (r: ProviderMixStatements)
    ensures
        r.counters@ == counter_window_query(TOKEN_COUNTER@, token_labels(), window),
        r.providers@ == on_metric(CALL_PROVIDERS@, CALL_COUNTER@, window),
        r.turns@ == on_metric(TURN_TOKENS@, TURN_HISTOGRAM@, window),
        r.requests@ == request_mix_query(*x, window),
{
    let mut requests = analytics::begin_on_spans(request_mix_columns(x).as_str(), REQUEST_GUARD, window);
    requests.add_text(" GROUP BY model, system, session_id");
    ProviderMixStatements {
        counters: query_counter_window(TOKEN_COUNTER, &token_label_paths(), window),
        providers: begin_on_metric(CALL_PROVIDERS, CALL_COUNTER, window),
        turns: begin_on_metric(TURN_TOKENS, TURN_HISTOGRAM, window),
        requests,
    }
}

/// The statements behind the economics of the cache.
pub struct CacheEconomicsStatements {
    pub counters: Statement,
    pub turns: Statement,
    pub requests: Statement,
}

/// Reads the tokens of turns in each bucket. The width of a bucket is bound twice, before the name.
pub open spec fn turn_buckets_query(window: Window, bucket_ns: i64) -> Query {
    listing::in_window(
        listing::begin(TURN_BUCKETS@).with(Bind::Integer(bucket_ns)).with(Bind::Integer(bucket_ns)).with(
            Bind::Text(TURN_HISTOGRAM@),
        ),
        window.start,
        window.end,
    ).plus(" GROUP BY bucket, model, token_type"@)
}

/// Reads the tokens of requests in each bucket. The width of a bucket is bound twice, first.
pub open spec fn request_buckets_query(x: TokenExprs, window: Window, bucket_ns: i64) -> Query {
    listing::in_span_window(
        listing::begin(request_bucket_columns_text(x)).with(Bind::Integer(bucket_ns)).with(
            Bind::Integer(bucket_ns),
        ),
        window.start,
        window.end,
    ).plus(" GROUP BY bucket, model"@)
}

/// The statements that read the cached tokens of all agents. A width that is not positive is refused.
pub fn query_cache_economics(x: &TokenExprs, window: Window, bucket_ns: i64) -> (r: Result<
    CacheEconomicsStatements,
    StorageError,
>)
    ensures
        match r {
            Ok(s) => {
                &&& bucket_ns > 0
                &&& s.counters@ == counter_window_query(TOKEN_COUNTER@, token_labels(), window)
                &&& s.turns@ == turn_buckets_query(window, bucket_ns)
                &&& s.requests@ == request_buckets_query(*x, window, bucket_ns)
            },
            Err(StorageError::QueryError(m)) => bucket_ns <= 0 && m@ == cache::bucket_refusal(bucket_ns),
            Err(_) => false,
        },
{
    match cache::check_bucket(bucket_ns) {
        Ok(_) => {},
        Err(e) => {
            return Err(e);
        },
    }
    let mut turns = Statement::new(TURN_BUCKETS);
    turns.add_value(SqlValue::Integer(bucket_ns));
    turns.add_value(SqlValue::Integer(bucket_ns));
    turns.add_value(SqlValue::Text(TURN_HISTOGRAM.to_owned()));
    listing::add_window(&mut turns, window.start, window.end);
    turns.add_text(" GROUP BY bucket, model, token_type");
    let mut requests = Statement::new(request_bucket_columns(x).as_str());
    requests.add_value(SqlValue::Integer(bucket_ns));
    requests.add_value(SqlValue::Integer(bucket_ns));
    listing::add_span_window(&mut requests, window.start, window.end);
    requests.add_text(" GROUP BY bucket, model");
    Ok(
        CacheEconomicsStatements {
            counters: query_counter_window(TOKEN_COUNTER, &token_label_paths(), window),
            turns,
            requests,
        },
    )
}

} // verus!
