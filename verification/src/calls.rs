//! Statements that read single model calls: the largest, how they finished, how they failed, what
//! they can report, and retrievals.
use crate::analytics;
use crate::analytics::{TokenExprs, Window};
use crate::capability;
use crate::listing;
use crate::sql::{Query, Statement};
use crate::text;
use vstd::prelude::*;

verus! {

/// What the largest calls are ordered by.
#[derive(Clone, Copy)]
pub enum TopSpanSort {
    TotalTokens,
    Duration,
    OutputInputRatio,
    CacheEfficiency,
}

/// The order of the largest calls.
pub open spec fn sort_text(sort_by: TopSpanSort) -> Seq<char> {
    match sort_by {
        TopSpanSort::TotalTokens => "total_tokens DESC"@,
        TopSpanSort::Duration => "(end_time - start_time) DESC"@,
        TopSpanSort::OutputInputRatio => BY_OUTPUT_RATIO@,
        TopSpanSort::CacheEfficiency => BY_CACHE_USE@,
    }
}

/// The calls with the most output for their input come first.
pub const BY_OUTPUT_RATIO: &'static str =
    "CAST(COALESCE(output_tokens_raw, 0) AS FLOAT) / NULLIF(COALESCE(input_tokens_raw, 0) + COALESCE(cache_creation_tokens_raw, 0) + COALESCE(cache_read_tokens_raw, 0), 0) DESC";

/// The calls that used the cache least come first.
pub const BY_CACHE_USE: &'static str =
    "CAST(COALESCE(cache_read_tokens_raw, 0) AS FLOAT) / NULLIF(COALESCE(input_tokens_raw, 0) + COALESCE(cache_read_tokens_raw, 0), 0) ASC";

/// The call was cut off at its limit.
pub const TRUNCATED: &'static str =
    " AND (json_extract(attributes, '$.\"gen_ai.response.finish_reason\"') IN ('max_tokens','length') OR (json_type(attributes, '$.\"gen_ai.response.finish_reasons\"') = 'array' AND json_extract(json_extract(attributes, '$.\"gen_ai.response.finish_reasons\"'), '$[0]') IN ('max_tokens','length')))";

fn sort_order(sort_by: TopSpanSort) -> (s: &'static str)
    ensures
        s@ == sort_text(sort_by),
{
    match sort_by {
        TopSpanSort::TotalTokens => "total_tokens DESC",
        TopSpanSort::Duration => "(end_time - start_time) DESC",
        TopSpanSort::OutputInputRatio => BY_OUTPUT_RATIO,
        TopSpanSort::CacheEfficiency => BY_CACHE_USE,
    }
}

/// What is read of the largest calls.
pub open spec fn top_columns_text(x: TokenExprs) -> Seq<char> {
    text::flat(
        seq![
            "SELECT trace_id, span_id, start_time, (end_time - start_time) AS duration, "@,
            x.model@,
            " AS model, "@,
            x.system@,
            " AS system, json_extract(attributes, '$.\"session.id\"') AS session_id, json_extract(attributes, '$.\"prompt.id\"') AS prompt_id, COALESCE("@,
            x.input@,
            ", 0) AS input_tokens, COALESCE("@,
            x.output@,
            ", 0) AS output_tokens, COALESCE("@,
            x.cache_creation@,
            ", 0) AS cache_creation_tokens, COALESCE("@,
            x.cache_read@,
            ", 0) AS cache_read_tokens, COALESCE("@,
            x.input@,
            ", 0) + COALESCE("@,
            x.output@,
            ", 0) + COALESCE("@,
            x.cache_creation@,
            ", 0) + COALESCE("@,
            x.cache_read@,
            ", 0) AS total_tokens, "@,
            analytics::FINISH_REASON@,
            " AS finish_reason, "@,
            analytics::CONVERSATION@,
            " AS conversation_id, "@,
            x.input@,
            " AS input_tokens_raw, "@,
            x.output@,
            " AS output_tokens_raw, "@,
            x.cache_creation@,
            " AS cache_creation_tokens_raw, "@,
            x.cache_read@,
            " AS cache_read_tokens_raw"@,
        ],
    )
}

fn top_columns(x: &TokenExprs) -> (s: String)
    ensures
        s@ == top_columns_text(*x),
{
    let parts: Vec<&str> = vec![
        "SELECT trace_id, span_id, start_time, (end_time - start_time) AS duration, ",
        x.model.as_str(),
        " AS model, ",
        x.system.as_str(),
        " AS system, json_extract(attributes, '$.\"session.id\"') AS session_id, json_extract(attributes, '$.\"prompt.id\"') AS prompt_id, COALESCE(",
        x.input.as_str(),
        ", 0) AS input_tokens, COALESCE(",
        x.output.as_str(),
        ", 0) AS output_tokens, COALESCE(",
        x.cache_creation.as_str(),
        ", 0) AS cache_creation_tokens, COALESCE(",
        x.cache_read.as_str(),
        ", 0) AS cache_read_tokens, COALESCE(",
        x.input.as_str(),
        ", 0) + COALESCE(",
        x.output.as_str(),
        ", 0) + COALESCE(",
        x.cache_creation.as_str(),
        ", 0) + COALESCE(",
        x.cache_read.as_str(),
        ", 0) AS total_tokens, ",
        analytics::FINISH_REASON,
        " AS finish_reason, ",
        analytics::CONVERSATION,
        " AS conversation_id, ",
        x.input.as_str(),
        " AS input_tokens_raw, ",
        x.output.as_str(),
        " AS output_tokens_raw, ",
        x.cache_creation.as_str(),
        " AS cache_creation_tokens_raw, ",
        x.cache_read.as_str(),
        " AS cache_read_tokens_raw",
    ];
    proof {
        assert(text::views(parts@) =~= seq![
            "SELECT trace_id, span_id, start_time, (end_time - start_time) AS duration, "@,
            x.model@,
            " AS model, "@,
            x.system@,
            " AS system, json_extract(attributes, '$.\"session.id\"') AS session_id, json_extract(attributes, '$.\"prompt.id\"') AS prompt_id, COALESCE("@,
            x.input@,
            ", 0) AS input_tokens, COALESCE("@,
            x.output@,
            ", 0) AS output_tokens, COALESCE("@,
            x.cache_creation@,
            ", 0) AS cache_creation_tokens, COALESCE("@,
            x.cache_read@,
            ", 0) AS cache_read_tokens, COALESCE("@,
            x.input@,
            ", 0) + COALESCE("@,
            x.output@,
            ", 0) + COALESCE("@,
            x.cache_creation@,
            ", 0) + COALESCE("@,
            x.cache_read@,
            ", 0) AS total_tokens, "@,
            analytics::FINISH_REASON@,
            " AS finish_reason, "@,
            analytics::CONVERSATION@,
            " AS conversation_id, "@,
            x.input@,
            " AS input_tokens_raw, "@,
            x.output@,
            " AS output_tokens_raw, "@,
            x.cache_creation@,
            " AS cache_creation_tokens_raw, "@,
            x.cache_read@,
            " AS cache_read_tokens_raw"@,
        ]);
    }
    text::concat(&parts)
}

/// Reads the largest calls in the asked order; only those that were cut off, where asked.
pub open spec fn top_spans_query(
    x: TokenExprs,
    window: Window,
    limit: usize,
    sort_by: TopSpanSort,
    truncated_only: bool,
) -> Query {
    let found = analytics::on_spans(top_columns_text(x), x.llm_span_guard@, window);
    let kept = if truncated_only {
        found.plus(TRUNCATED@)
    } else {
        found
    };
    analytics::limited(kept.plus(" ORDER BY "@).plus(sort_text(sort_by)), limit)
}

/// The statement that reads the largest calls.
pub fn query_top_spans(
    x: &TokenExprs,
    window: Window,
    limit: usize,
    sort_by: TopSpanSort,
    truncated_only: bool,
) -> (s: Statement)
    ensures
        s@ == top_spans_query(*x, window, limit, sort_by, truncated_only),
{
    let mut s = analytics::begin_on_spans(
        top_columns(x).as_str(),
        x.llm_span_guard.as_str(),
        window,
    );
    if truncated_only {
        s.add_text(TRUNCATED);
    }
    s.add_text(" ORDER BY ");
    s.add_text(sort_order(sort_by));
    analytics::add_limit(&mut s, limit);
    s
}

/// Reads all calls, the largest first.
pub open spec fn all_calls_query(x: TokenExprs, window: Window) -> Query {
    analytics::on_spans(top_columns_text(x), x.llm_span_guard@, window).plus(" ORDER BY "@).plus(
        sort_text(TopSpanSort::TotalTokens),
    )
}

/// The statement that reads all calls, with the columns of the largest ones.
pub fn query_all_calls(x: &TokenExprs, window: Window) -> (s: Statement)
    ensures
        s@ == all_calls_query(*x, window),
{
    let mut s = analytics::begin_on_spans(
        top_columns(x).as_str(),
        x.llm_span_guard.as_str(),
        window,
    );
    s.add_text(" ORDER BY ");
    s.add_text(sort_order(TopSpanSort::TotalTokens));
    s
}

/// The spans with a single finish reason.
pub const SINGLE_REASON_SPANS: &'static str =
    "WITH reasons AS (SELECT json_extract(attributes, '$.\"gen_ai.response.finish_reason\"') AS reason FROM spans WHERE json_valid(attributes) AND (json_extract(attributes, '$.\"gen_ai.response.finish_reason\"') IS NOT NULL OR json_extract(attributes, '$.\"gen_ai.response.finish_reasons\"') IS NOT NULL) AND json_extract(attributes, '$.\"gen_ai.response.finish_reason\"') IS NOT NULL";

/// The spans with a list of finish reasons. A value that is not itself JSON is skipped before its type is asked for.
pub const REASON_LIST_SPANS: &'static str =
    " UNION ALL SELECT je.value AS reason FROM (SELECT json_extract(attributes, '$.\"gen_ai.response.finish_reasons\"') AS arr FROM spans WHERE json_valid(attributes) AND (json_extract(attributes, '$.\"gen_ai.response.finish_reason\"') IS NOT NULL OR json_extract(attributes, '$.\"gen_ai.response.finish_reasons\"') IS NOT NULL) AND json_extract(attributes, '$.\"gen_ai.response.finish_reasons\"') IS NOT NULL AND json_valid(json_extract(attributes, '$.\"gen_ai.response.finish_reasons\"')) AND json_type(json_extract(attributes, '$.\"gen_ai.response.finish_reasons\"')) = 'array'";

/// The logged responses that name a stop reason.
pub const REASON_LOGS: &'static str =
    ") s, json_each(s.arr) je UNION ALL SELECT json_extract(body_json, '$.stop_reason') AS reason FROM (SELECT json_extract(attributes, '$.body') AS body_json FROM logs WHERE body = 'claude_code.api_response_body' AND json_extract(attributes, '$.body') IS NOT NULL AND json_valid(json_extract(attributes, '$.body'))";

/// How often each reason occurs, the most frequent first.
pub const REASON_COUNTS: &'static str =
    ") l WHERE json_extract(body_json, '$.stop_reason') IS NOT NULL) SELECT reason, COUNT(*) AS cnt FROM reasons WHERE reason IS NOT NULL GROUP BY reason ORDER BY cnt DESC";

/// Counts finish reasons over three sources: spans with one reason, spans with a list of them, and
/// logged responses. Each source has the window of its own table; only spans know a model.
pub open spec fn finish_reasons_query(x: TokenExprs, window: Window, model: Option<Seq<char>>) -> Query {
    let single = analytics::for_model(
        listing::in_span_window(listing::begin(SINGLE_REASON_SPANS@), window.start, window.end),
        x,
        model,
    );
    let lists = analytics::for_model(
        listing::in_span_window(single.plus(REASON_LIST_SPANS@), window.start, window.end),
        x,
        model,
    );
    listing::in_window(lists.plus(REASON_LOGS@), window.start, window.end).plus(REASON_COUNTS@)
}

/// The statement that counts finish reasons.
pub fn query_finish_reasons(x: &TokenExprs, window: Window, model: &Option<String>) -> (s: Statement)
    ensures
        s@ == finish_reasons_query(*x, window, text::optional(*model)),
{
    let mut s = Statement::new(SINGLE_REASON_SPANS);
    listing::add_span_window(&mut s, window.start, window.end);
    analytics::add_model(&mut s, x, model);
    s.add_text(REASON_LIST_SPANS);
    listing::add_span_window(&mut s, window.start, window.end);
    analytics::add_model(&mut s, x, model);
    s.add_text(REASON_LOGS);
    listing::add_window(&mut s, window.start, window.end);
    s.add_text(REASON_COUNTS);
    s
}

/// What is read of failed calls: their model, and the first label of their error that is there.
pub open spec fn error_columns_text(x: TokenExprs) -> Seq<char> {
    text::flat(
        seq![
            "WITH error_spans AS (SELECT "@,
            analytics::identity_text(x.model@, x.system@),
            " AS model, COALESCE(json_extract(attributes, '$.\"error.type\"'), json_extract(attributes, '$.\"exception.type\"'), CAST(json_extract(attributes, '$.\"http.response.status_code\"') AS TEXT), CAST(json_extract(attributes, '$.\"http.status_code\"') AS TEXT), 'unknown') AS error_type"@,
        ],
    )
}

fn error_columns(x: &TokenExprs) -> (s: String)
    ensures
        s@ == error_columns_text(*x),
{
    let identity = analytics::identity_expr(x.model.as_str(), x.system.as_str());
    let parts: Vec<&str> = vec![
        "WITH error_spans AS (SELECT ",
        identity.as_str(),
        " AS model, COALESCE(json_extract(attributes, '$.\"error.type\"'), json_extract(attributes, '$.\"exception.type\"'), CAST(json_extract(attributes, '$.\"http.response.status_code\"') AS TEXT), CAST(json_extract(attributes, '$.\"http.status_code\"') AS TEXT), 'unknown') AS error_type",
    ];
    proof {
        assert(text::views(parts@) =~= seq![
            "WITH error_spans AS (SELECT "@,
            analytics::identity_text(x.model@, x.system@),
            " AS model, COALESCE(json_extract(attributes, '$.\"error.type\"'), json_extract(attributes, '$.\"exception.type\"'), CAST(json_extract(attributes, '$.\"http.response.status_code\"') AS TEXT), CAST(json_extract(attributes, '$.\"http.status_code\"') AS TEXT), 'unknown') AS error_type"@,
        ]);
    }
    text::concat(&parts)
}

/// The failed calls of each model and label, with the kind of failure that the label names, the most frequent first.
pub const ERROR_BUCKETS: &'static str =
    ") SELECT model, error_type, CASE WHEN LOWER(error_type) LIKE '%rate%limit%' OR error_type LIKE '%429%' OR LOWER(error_type) LIKE '%throttl%' THEN 'rate_limit' WHEN LOWER(error_type) LIKE '%timeout%' OR error_type IN ('408', '504') OR LOWER(error_type) LIKE '%deadline%' THEN 'timeout' WHEN LOWER(error_type) LIKE '%context%length%' OR LOWER(error_type) LIKE '%context%window%' OR LOWER(error_type) LIKE '%max%token%' OR LOWER(error_type) LIKE '%too%long%' THEN 'context_length' WHEN LOWER(error_type) LIKE '%content_filter%' OR LOWER(error_type) LIKE '%moderation%' OR LOWER(error_type) LIKE '%content_policy%' OR LOWER(error_type) LIKE '%safety%' THEN 'content_filter' WHEN error_type IN ('401', '403') OR LOWER(error_type) LIKE '%unauthor%' OR LOWER(error_type) LIKE '%forbid%' OR LOWER(error_type) LIKE '%invalid%api%key%' THEN 'auth' WHEN CAST(error_type AS INTEGER) BETWEEN 500 AND 599 THEN 'server_error' ELSE 'unknown' END AS bucket, COUNT(*) AS count FROM error_spans GROUP BY model, error_type, bucket ORDER BY count DESC";

/// Reads the failed calls of each model and label.
pub open spec fn error_types_query(x: TokenExprs, window: Window, model: Option<Seq<char>>) -> Query {
    analytics::for_model(
        analytics::on_spans(error_columns_text(x), x.llm_span_guard@ + " AND status_code = 2"@, window),
        x,
        model,
    ).plus(ERROR_BUCKETS@)
}

/// The statement that reads the failed calls of each model and label.
pub fn query_error_types(x: &TokenExprs, window: Window, model: &Option<String>) -> (s: Statement)
    ensures
        s@ == error_types_query(*x, window, text::optional(*model)),
{
    let mut guard = x.llm_span_guard.clone();
    guard.append(" AND status_code = 2");
    let mut s = analytics::begin_on_spans(error_columns(x).as_str(), guard.as_str(), window);
    analytics::add_model(&mut s, x, model);
    s.add_text(ERROR_BUCKETS);
    s
}

/// The retrievals: spans of the retriever kind, and spans with a retrieval query.
pub const RETRIEVALS: &'static str =
    "WITH retrieval_spans AS (SELECT CAST(json_extract(attributes, '$.\"retrieval.query\"') AS TEXT) AS query, COALESCE(json_array_length(json_extract(attributes, '$.\"retrieval.documents\"')), 0) AS doc_count, CAST(json_extract(attributes, '$.\"retrieval.documents\"[0].\"document.score\"') AS REAL) AS top_score FROM spans WHERE json_valid(attributes) AND (json_extract(attributes, '$.\"openinference.span.kind\"') = 'RETRIEVER' OR json_extract(attributes, '$.\"retrieval.query\"') IS NOT NULL)";

/// The number of retrievals and their averages.
pub const RETRIEVAL_SUMMARY: &'static str =
    ") SELECT COUNT(*) AS total, COALESCE(AVG(CAST(doc_count AS REAL)), 0.0) AS avg_docs, AVG(top_score) AS avg_top_score FROM retrieval_spans";

/// The retrieval queries, the most frequent first.
pub const RETRIEVAL_QUERIES: &'static str =
    ") SELECT query, COUNT(*) AS cnt, COALESCE(AVG(CAST(doc_count AS REAL)), 0.0) AS avg_docs, AVG(top_score) AS avg_top_score FROM retrieval_spans WHERE query IS NOT NULL GROUP BY query ORDER BY cnt DESC";

/// Reads the number of retrievals and their averages.
pub open spec fn retrieval_summary_query(window: Window) -> Query {
    listing::in_span_window(listing::begin(RETRIEVALS@), window.start, window.end).plus(RETRIEVAL_SUMMARY@)
}

/// Reads the most frequent retrieval queries.
pub open spec fn retrieval_queries_query(window: Window, limit: usize) -> Query {
    analytics::limited(
        listing::in_span_window(listing::begin(RETRIEVALS@), window.start, window.end).plus(
            RETRIEVAL_QUERIES@,
        ),
        limit,
    )
}

/// The statements on retrievals.
pub struct RetrievalStatements {
    pub summary: Statement,
    /// To be run only where there is a retrieval.
    pub top_queries: Statement,
}

/// The statements that read the retrievals and their most frequent queries.
pub fn query_retrieval_stats(window: Window, top_queries_limit: usize) -> (r: RetrievalStatements)
    ensures
        r.summary@ == retrieval_summary_query(window),
        r.top_queries@ == retrieval_queries_query(window, top_queries_limit),
{
    let mut summary = Statement::new(RETRIEVALS);
    listing::add_span_window(&mut summary, window.start, window.end);
    summary.add_text(RETRIEVAL_SUMMARY);
    let mut top_queries = Statement::new(RETRIEVALS);
    listing::add_span_window(&mut top_queries, window.start, window.end);
    top_queries.add_text(RETRIEVAL_QUERIES);
    analytics::add_limit(&mut top_queries, top_queries_limit);
    RetrievalStatements { summary, top_queries }
}

/// The newest spans.
pub const RECENT_SPANS: &'static str =
    "WITH recent_spans AS (SELECT trace_id, span_id, parent_span_id, name, kind, start_time, end_time, COALESCE(attributes, '{}') AS attributes, COALESCE(events, '[]') AS events, COALESCE(status_code, 0) AS status_code, status_message, COALESCE(resource, 'null') AS resource, created_at, id FROM spans WHERE 1=1";

/// The spans without repeated deliveries; the first delivery of a span counts, with the number of the others beside it.
pub const DELIVERED_SPANS: &'static str =
    "), ranked_spans AS (SELECT trace_id, span_id, parent_span_id, name, kind, start_time, end_time, COALESCE(attributes, '{}') AS attributes, COALESCE(events, '[]') AS events, COALESCE(status_code, 0) AS status_code, status_message, COALESCE(resource, 'null') AS resource, created_at, id, ROW_NUMBER() OVER (PARTITION BY trace_id, span_id ORDER BY created_at ASC, id ASC) AS delivery_rank, COUNT(*) OVER (PARTITION BY trace_id, span_id) - 1 AS duplicate_deliveries FROM recent_spans) SELECT trace_id, span_id, parent_span_id, name, kind, start_time, end_time, attributes, events, status_code, status_message, resource, duplicate_deliveries FROM ranked_spans WHERE delivery_rank = 1 ORDER BY start_time DESC, id DESC";

/// Reads the newest spans, one more than are examined, each delivery once.
pub open spec fn capabilities_query(window: Window) -> Query {
    listing::in_span_window(listing::begin(RECENT_SPANS@), window.start, window.end).plus(
        " ORDER BY start_time DESC, id DESC LIMIT "@,
    ).plus(text::decimal((capability::CAPABILITY_QUERY_LIMIT + 1) as nat)).plus(DELIVERED_SPANS@)
}

/// The statement that reads the spans whose reporting is examined.
pub fn query_genai_capabilities(window: Window) -> (s: Statement)
    ensures
        s@ == capabilities_query(window),
{
    let mut s = Statement::new(RECENT_SPANS);
    listing::add_span_window(&mut s, window.start, window.end);
    s.add_text(" ORDER BY start_time DESC, id DESC LIMIT ");
    s.add_text(text::render_u64((capability::CAPABILITY_QUERY_LIMIT + 1) as u64).as_str());
    s.add_text(DELIVERED_SPANS);
    s
}

} // verus!
