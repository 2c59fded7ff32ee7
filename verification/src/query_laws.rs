//! What the statements behind the analytics read: of which spans or points, in which window, and in which
//! order.
use crate::analytics;
use crate::analytics::{ModelLabel, TokenExprs, Window};
use crate::calls;
use crate::calls::TopSpanSort;
use crate::layout;
use crate::listing;
use crate::records;
use crate::series;
use crate::sources;
use crate::sql::{Bind, Query};
use crate::store_laws;
use crate::text;
use crate::tools;
use vstd::prelude::*;

verus! {

/// The window of spans: they start within it and end within it.
pub open spec fn span_window(window: Window) -> Seq<char> {
    store_laws::piece(window.start is Some, " AND start_time >= ?"@) + store_laws::piece(
        window.end is Some,
        " AND end_time <= ?"@,
    )
}

/// The window of points.
pub open spec fn point_window(window: Window) -> Seq<char> {
    store_laws::piece(window.start is Some, " AND timestamp >= ?"@) + store_laws::piece(
        window.end is Some,
        " AND timestamp <= ?"@,
    )
}

/// The bounds of a window, as they are bound.
pub open spec fn bounds(window: Window) -> Seq<Bind> {
    store_laws::number(window.start) + store_laws::number(window.end)
}

/// A model, as it is bound.
pub open spec fn model_bind(model: Option<Seq<char>>) -> Seq<Bind> {
    match model {
        Some(m) => seq![Bind::Text(m)],
        None => Seq::empty(),
    }
}

/// A window narrows a statement by its bounds.
proof fn lemma_window(q: Query, window: Window)
    ensures
        listing::in_span_window(q, window.start, window.end).text == q.text + span_window(window),
        listing::in_span_window(q, window.start, window.end).binds == q.binds + bounds(window),
        listing::in_window(q, window.start, window.end).text == q.text + point_window(window),
        listing::in_window(q, window.start, window.end).binds == q.binds + bounds(window),
{
    store_laws::lemma_number(q, window.start, " AND start_time >= ?"@);
    store_laws::lemma_number(q.when_integer(window.start, " AND start_time >= ?"@), window.end, " AND end_time <= ?"@);
    store_laws::lemma_number(q, window.start, " AND timestamp >= ?"@);
    store_laws::lemma_number(q.when_integer(window.start, " AND timestamp >= ?"@), window.end, " AND timestamp <= ?"@);
    let a = store_laws::piece(window.start is Some, " AND start_time >= ?"@);
    let b = store_laws::piece(window.end is Some, " AND end_time <= ?"@);
    let c = store_laws::piece(window.start is Some, " AND timestamp >= ?"@);
    let d = store_laws::piece(window.end is Some, " AND timestamp <= ?"@);
    assert((q.text + a) + b =~= q.text + (a + b));
    assert((q.text + c) + d =~= q.text + (c + d));
    assert((q.binds + store_laws::number(window.start)) + store_laws::number(window.end) =~= q.binds + bounds(window));
}

/// A statement on spans reads those that meet its condition, in its window.
proof fn lemma_spans(select: Seq<char>, guard: Seq<char>, window: Window)
    ensures
        analytics::on_spans(select, guard, window).text == select + " FROM spans WHERE "@ + guard + span_window(window),
        analytics::on_spans(select, guard, window).binds == bounds(window),
{
    let q = listing::begin(select + " FROM spans WHERE "@ + guard);
    lemma_window(q, window);
    assert(Seq::<Bind>::empty() + bounds(window) =~= bounds(window));
}

/// A model narrows a statement to the calls of that model.
proof fn lemma_model(q: Query, x: TokenExprs, model: Option<Seq<char>>)
    ensures
        analytics::for_model(q, x, model).text == q.text + store_laws::piece(
            model is Some,
            " AND ("@ + x.model@ + ") = ?"@,
        ),
        analytics::for_model(q, x, model).binds == q.binds + model_bind(model),
{
    assert(q.text + Seq::<char>::empty() =~= q.text);
    assert(q.binds + Seq::<Bind>::empty() =~= q.binds);
    if let Some(m) = model {
        assert(q.binds.push(Bind::Text(m)) =~= q.binds + seq![Bind::Text(m)]);
    }
}

/// The tokens of all calls are read of the spans that are model calls.
pub proof fn token_summaries_read_model_calls(x: TokenExprs, window: Window, model: Option<Seq<char>>)
    ensures
        analytics::token_summary_query(x, window, model).text == analytics::token_summary_columns_text(x) + " FROM spans WHERE "@ + x.llm_span_guard@ + span_window(window) + store_laws::piece(model is Some, " AND ("@ + x.model@ + ") = ?"@),
        analytics::token_summary_query(x, window, model).binds == bounds(window) + model_bind(model),
{
    lemma_spans(analytics::token_summary_columns_text(x), x.llm_span_guard@, window);
    let q = analytics::on_spans(analytics::token_summary_columns_text(x), x.llm_span_guard@, window);
    lemma_model(q, x, model);
}

/// The usage of each model is read of the spans that are model calls, by the models asked for and
/// answering.
pub proof fn model_usage_reads_model_calls(x: TokenExprs, window: Window, model: Option<Seq<char>>, by: ModelLabel)
    ensures
        analytics::model_usage_query(x, window, model, by).text == analytics::model_usage_columns_text(x, by) + " FROM spans WHERE "@ + x.llm_span_guard@ + span_window(window) + store_laws::piece(model is Some, " AND ("@ + x.model@ + ") = ?"@) + " GROUP BY model, request_model, response_model HAVING model IS NOT NULL"@,
        analytics::model_usage_query(x, window, model, by).binds == bounds(window) + model_bind(model),
{
    lemma_spans(analytics::model_usage_columns_text(x, by), x.llm_span_guard@, window);
    let q = analytics::on_spans(analytics::model_usage_columns_text(x, by), x.llm_span_guard@, window);
    lemma_model(q, x, model);
}

/// The usage of each system is read of the spans that are model calls, the busiest system first.
pub proof fn system_usage_reads_model_calls(x: TokenExprs, window: Window, model: Option<Seq<char>>)
    ensures
        analytics::system_usage_query(x, window, model).text == analytics::system_usage_columns_text(x) + " FROM spans WHERE "@ + x.llm_span_guard@ + span_window(window) + store_laws::piece(model is Some, " AND ("@ + x.model@ + ") = ?"@) + " GROUP BY system HAVING system IS NOT NULL ORDER BY input_tokens + output_tokens DESC"@,
        analytics::system_usage_query(x, window, model).binds == bounds(window) + model_bind(model),
{
    lemma_spans(analytics::system_usage_columns_text(x), x.llm_span_guard@, window);
    let q = analytics::on_spans(analytics::system_usage_columns_text(x), x.llm_span_guard@, window);
    lemma_model(q, x, model);
}

/// The sessions with the most tokens come first, of the calls that name a session.
pub proof fn top_sessions_read_calls_with_a_session(x: TokenExprs, window: Window, limit: usize)
    ensures
        analytics::top_sessions_query(x, window, limit).text == analytics::top_sessions_columns_text(x) + " FROM spans WHERE "@ + (x.llm_span_guard@ + " AND session_id IS NOT NULL"@) + span_window(window) + " GROUP BY session_id ORDER BY total_tokens DESC"@ + " LIMIT ?"@,
        analytics::top_sessions_query(x, window, limit).binds == bounds(window) + seq![Bind::Integer(limit as i64)],
{
    reveal_with_fuel(text::flat, 3);
    assert(analytics::top_sessions_guard_text(x) =~= (x.llm_span_guard@ + " AND session_id IS NOT NULL"@));
    lemma_spans(analytics::top_sessions_columns_text(x), (x.llm_span_guard@ + " AND session_id IS NOT NULL"@), window);
    let q = analytics::on_spans(analytics::top_sessions_columns_text(x), (x.llm_span_guard@ + " AND session_id IS NOT NULL"@), window);
    assert(bounds(window).push(Bind::Integer(limit as i64)) =~= bounds(window) + seq![Bind::Integer(limit as i64)]);
}

/// The conversations with the most tokens come first, of the calls that name a conversation.
pub proof fn top_conversations_read_calls_with_a_conversation(x: TokenExprs, window: Window, limit: usize)
    ensures
        analytics::top_conversations_query(x, window, limit).text == analytics::top_conversations_columns_text(x) + " FROM spans WHERE "@ + (x.llm_span_guard@ + " AND "@ + "json_extract(attributes, '$.\"gen_ai.conversation.id\"')"@ + " IS NOT NULL"@) + span_window(window) + " GROUP BY conversation_id ORDER BY total_tokens DESC"@ + " LIMIT ?"@,
        analytics::top_conversations_query(x, window, limit).binds == bounds(window) + seq![Bind::Integer(limit as i64)],
{
    reveal_with_fuel(text::flat, 5);
    assert(analytics::top_conversations_guard_text(x) =~= (x.llm_span_guard@ + " AND "@ + "json_extract(attributes, '$.\"gen_ai.conversation.id\"')"@ + " IS NOT NULL"@));
    lemma_spans(analytics::top_conversations_columns_text(x), (x.llm_span_guard@ + " AND "@ + "json_extract(attributes, '$.\"gen_ai.conversation.id\"')"@ + " IS NOT NULL"@), window);
    let q = analytics::on_spans(analytics::top_conversations_columns_text(x), (x.llm_span_guard@ + " AND "@ + "json_extract(attributes, '$.\"gen_ai.conversation.id\"')"@ + " IS NOT NULL"@), window);
    assert(bounds(window).push(Bind::Integer(limit as i64)) =~= bounds(window) + seq![Bind::Integer(limit as i64)]);
}

/// Latency is read of the calls whose duration can be relied on.
pub proof fn latency_reads_reliable_calls(x: TokenExprs, window: Window, model: Option<Seq<char>>)
    ensures
        analytics::latency_stats_query(x, window, model).text == analytics::latency_stats_columns_text(x) + " FROM spans WHERE "@ + x.request_span_guard@ + span_window(window) + store_laws::piece(model is Some, " AND ("@ + x.model@ + ") = ?"@),
        analytics::latency_stats_query(x, window, model).binds == bounds(window) + model_bind(model),
{
    lemma_spans(analytics::latency_stats_columns_text(x), x.request_span_guard@, window);
    let q = analytics::on_spans(analytics::latency_stats_columns_text(x), x.request_span_guard@, window);
    lemma_model(q, x, model);
}

/// Failures are counted over the model calls of each model, the most failures first.
pub proof fn error_rates_read_model_calls(x: TokenExprs, window: Window, model: Option<Seq<char>>)
    ensures
        analytics::error_rate_query(x, window, model).text == analytics::error_rate_columns_text(x) + " FROM spans WHERE "@ + x.llm_span_guard@ + span_window(window) + store_laws::piece(model is Some, " AND ("@ + x.model@ + ") = ?"@) + " GROUP BY model HAVING model IS NOT NULL ORDER BY errors DESC, total DESC"@,
        analytics::error_rate_query(x, window, model).binds == bounds(window) + model_bind(model),
{
    lemma_spans(analytics::error_rate_columns_text(x), x.llm_span_guard@, window);
    let q = analytics::on_spans(analytics::error_rate_columns_text(x), x.llm_span_guard@, window);
    lemma_model(q, x, model);
}

/// The attempts of a call are those that it reports, and one where it reports none.
pub proof fn retries_read_the_attempts(x: TokenExprs, window: Window)
    ensures
        analytics::retry_stats_query(x, window).text == "SELECT COALESCE(CAST(json_extract(attributes, '$.\"attempt\"') AS INTEGER), CAST(json_extract(attributes, '$.\"retry_count\"') AS INTEGER), CAST(json_extract(attributes, '$.\"gen_ai.request.attempt\"') AS INTEGER), 1) AS attempt"@ + " FROM spans WHERE "@ + x.llm_span_guard@ + span_window(window),
        analytics::retry_stats_query(x, window).binds == bounds(window),
{
    lemma_spans("SELECT COALESCE(CAST(json_extract(attributes, '$.\"attempt\"') AS INTEGER), CAST(json_extract(attributes, '$.\"retry_count\"') AS INTEGER), CAST(json_extract(attributes, '$.\"gen_ai.request.attempt\"') AS INTEGER), 1) AS attempt"@, x.llm_span_guard@, window);
    let q = analytics::on_spans("SELECT COALESCE(CAST(json_extract(attributes, '$.\"attempt\"') AS INTEGER), CAST(json_extract(attributes, '$.\"retry_count\"') AS INTEGER), CAST(json_extract(attributes, '$.\"gen_ai.request.attempt\"') AS INTEGER), 1) AS attempt"@, x.llm_span_guard@, window);
}

/// Truncations are counted over the model calls of each model, the most calls first.
pub proof fn truncation_rates_read_model_calls(x: TokenExprs, window: Window, model: Option<Seq<char>>)
    ensures
        analytics::truncation_rate_query(x, window, model).text == analytics::truncation_rate_columns_text(x) + " FROM spans WHERE "@ + x.llm_span_guard@ + span_window(window) + store_laws::piece(model is Some, " AND ("@ + x.model@ + ") = ?"@) + (" GROUP BY "@ + x.model@ + " ORDER BY total DESC"@),
        analytics::truncation_rate_query(x, window, model).binds == bounds(window) + model_bind(model),
{
    reveal_with_fuel(text::flat, 4);
    assert(analytics::truncation_rate_grouping_text(x) =~= (" GROUP BY "@ + x.model@ + " ORDER BY total DESC"@));
    lemma_spans(analytics::truncation_rate_columns_text(x), x.llm_span_guard@, window);
    let q = analytics::on_spans(analytics::truncation_rate_columns_text(x), x.llm_span_guard@, window);
    lemma_model(q, x, model);
}

/// Hit rates are of the model calls of each model, the most cache reads first.
pub proof fn hit_rates_read_model_calls(x: TokenExprs, window: Window, model: Option<Seq<char>>)
    ensures
        analytics::cache_hit_rate_query(x, window, model).text == analytics::cache_hit_rate_columns_text(x) + " FROM spans WHERE "@ + x.llm_span_guard@ + span_window(window) + store_laws::piece(model is Some, " AND ("@ + x.model@ + ") = ?"@) + (" GROUP BY "@ + x.model@ + " ORDER BY cache_read_tokens DESC"@),
        analytics::cache_hit_rate_query(x, window, model).binds == bounds(window) + model_bind(model),
{
    reveal_with_fuel(text::flat, 4);
    assert(analytics::cache_hit_rate_grouping_text(x) =~= (" GROUP BY "@ + x.model@ + " ORDER BY cache_read_tokens DESC"@));
    lemma_spans(analytics::cache_hit_rate_columns_text(x), x.llm_span_guard@, window);
    let q = analytics::on_spans(analytics::cache_hit_rate_columns_text(x), x.llm_span_guard@, window);
    lemma_model(q, x, model);
}

/// The settings that were asked for, the most frequent first.
pub proof fn temperatures_read_the_requests(x: TokenExprs, window: Window)
    ensures
        analytics::temperatures_query(x, window).text == "SELECT ROUND(CAST(json_extract(attributes, '$.\"gen_ai.request.temperature\"') AS REAL), 2) AS temperature, COUNT(*) AS cnt"@ + " FROM spans WHERE "@ + x.llm_span_guard@ + span_window(window) + " GROUP BY temperature ORDER BY cnt DESC"@,
        analytics::temperatures_query(x, window).binds == bounds(window),
{
    lemma_spans("SELECT ROUND(CAST(json_extract(attributes, '$.\"gen_ai.request.temperature\"') AS REAL), 2) AS temperature, COUNT(*) AS cnt"@, x.llm_span_guard@, window);
    let q = analytics::on_spans("SELECT ROUND(CAST(json_extract(attributes, '$.\"gen_ai.request.temperature\"') AS REAL), 2) AS temperature, COUNT(*) AS cnt"@, x.llm_span_guard@, window);
}

/// The settings that were asked for, the most frequent first.
pub proof fn max_tokens_read_the_requests(x: TokenExprs, window: Window)
    ensures
        analytics::max_tokens_query(x, window).text == "SELECT CAST(json_extract(attributes, '$.\"gen_ai.request.max_tokens\"') AS INTEGER) AS max_tokens, COUNT(*) AS cnt"@ + " FROM spans WHERE "@ + x.llm_span_guard@ + span_window(window) + " GROUP BY max_tokens ORDER BY cnt DESC"@,
        analytics::max_tokens_query(x, window).binds == bounds(window),
{
    lemma_spans("SELECT CAST(json_extract(attributes, '$.\"gen_ai.request.max_tokens\"') AS INTEGER) AS max_tokens, COUNT(*) AS cnt"@, x.llm_span_guard@, window);
    let q = analytics::on_spans("SELECT CAST(json_extract(attributes, '$.\"gen_ai.request.max_tokens\"') AS INTEGER) AS max_tokens, COUNT(*) AS cnt"@, x.llm_span_guard@, window);
}

/// Each conversation has as many turns as calls name it.
pub proof fn conversation_depths_count_turns(x: TokenExprs, window: Window)
    ensures
        analytics::conversation_depth_query(x, window).text == "SELECT COUNT(*) AS turns"@ + " FROM spans WHERE "@ + (x.llm_span_guard@ + " AND "@ + "json_extract(attributes, '$.\"gen_ai.conversation.id\"')"@ + " IS NOT NULL"@) + span_window(window) + (" GROUP BY "@ + "json_extract(attributes, '$.\"gen_ai.conversation.id\"')"@),
        analytics::conversation_depth_query(x, window).binds == bounds(window),
{
    reveal_with_fuel(text::flat, 5);
    reveal_with_fuel(text::flat, 3);
    assert(analytics::conversation_depth_guard_text(x) =~= (x.llm_span_guard@ + " AND "@ + "json_extract(attributes, '$.\"gen_ai.conversation.id\"')"@ + " IS NOT NULL"@));
    assert(analytics::conversation_depth_grouping_text(x) =~= (" GROUP BY "@ + "json_extract(attributes, '$.\"gen_ai.conversation.id\"')"@));
    lemma_spans("SELECT COUNT(*) AS turns"@, (x.llm_span_guard@ + " AND "@ + "json_extract(attributes, '$.\"gen_ai.conversation.id\"')"@ + " IS NOT NULL"@), window);
    let q = analytics::on_spans("SELECT COUNT(*) AS turns"@, (x.llm_span_guard@ + " AND "@ + "json_extract(attributes, '$.\"gen_ai.conversation.id\"')"@ + " IS NOT NULL"@), window);
}

/// Latency by context is read of the calls that report some input.
pub proof fn latency_by_context_reads_calls_with_input(x: TokenExprs, window: Window, model: Option<Seq<char>>)
    ensures
        analytics::latency_by_context_query(x, window, model).text == analytics::latency_by_context_columns_text(x) + " FROM spans WHERE "@ + (x.llm_span_guard@ + " AND ("@ + x.input@ + ") IS NOT NULL AND ("@ + x.input@ + ") > 0"@) + span_window(window) + store_laws::piece(model is Some, " AND ("@ + x.model@ + ") = ?"@),
        analytics::latency_by_context_query(x, window, model).binds == bounds(window) + model_bind(model),
{
    reveal_with_fuel(text::flat, 7);
    assert(analytics::latency_by_context_guard_text(x) =~= (x.llm_span_guard@ + " AND ("@ + x.input@ + ") IS NOT NULL AND ("@ + x.input@ + ") > 0"@));
    lemma_spans(analytics::latency_by_context_columns_text(x), (x.llm_span_guard@ + " AND ("@ + x.input@ + ") IS NOT NULL AND ("@ + x.input@ + ") > 0"@), window);
    let q = analytics::on_spans(analytics::latency_by_context_columns_text(x), (x.llm_span_guard@ + " AND ("@ + x.input@ + ") IS NOT NULL AND ("@ + x.input@ + ") > 0"@), window);
    lemma_model(q, x, model);
}

/// The models asked for and answering are read together, the most frequent pair first.
pub proof fn drift_reads_both_models(x: TokenExprs, window: Window)
    ensures
        analytics::model_drift_query(x, window).text == analytics::model_drift_columns_text(x) + " FROM spans WHERE "@ + x.llm_span_guard@ + span_window(window) + " GROUP BY request_model, response_model HAVING request_model IS NOT NULL OR response_model IS NOT NULL ORDER BY count DESC"@,
        analytics::model_drift_query(x, window).binds == bounds(window),
{
    lemma_spans(analytics::model_drift_columns_text(x), x.llm_span_guard@, window);
    let q = analytics::on_spans(analytics::model_drift_columns_text(x), x.llm_span_guard@, window);
}

/// Each stop reason is counted, the most frequent first.
pub proof fn stop_reasons_are_counted(x: TokenExprs, window: Window)
    ensures
        analytics::stop_reasons_query(x, window).text == "SELECT COALESCE(json_extract(attributes, '$.stop_reason'), json_extract(attributes, '$.\"gen_ai.response.finish_reason\"'), '(none)') AS reason, COUNT(*) AS cnt"@ + " FROM spans WHERE "@ + x.llm_span_guard@ + span_window(window) + " GROUP BY reason ORDER BY cnt DESC"@,
        analytics::stop_reasons_query(x, window).binds == bounds(window),
{
    lemma_spans("SELECT COALESCE(json_extract(attributes, '$.stop_reason'), json_extract(attributes, '$.\"gen_ai.response.finish_reason\"'), '(none)') AS reason, COUNT(*) AS cnt"@, x.llm_span_guard@, window);
    let q = analytics::on_spans("SELECT COALESCE(json_extract(attributes, '$.stop_reason'), json_extract(attributes, '$.\"gen_ai.response.finish_reason\"'), '(none)') AS reason, COUNT(*) AS cnt"@, x.llm_span_guard@, window);
}

/// Calls are split by their kind of context, the most calls first.
pub proof fn contexts_are_split_by_calls(x: TokenExprs, window: Window)
    ensures
        analytics::context_type_split_query(x, window).text == analytics::context_type_split_columns_text(x) + " FROM spans WHERE "@ + x.llm_span_guard@ + span_window(window) + " GROUP BY context ORDER BY calls DESC"@,
        analytics::context_type_split_query(x, window).binds == bounds(window),
{
    lemma_spans(analytics::context_type_split_columns_text(x), x.llm_span_guard@, window);
    let q = analytics::on_spans(analytics::context_type_split_columns_text(x), x.llm_span_guard@, window);
}

/// The mix of requests is read of the request spans, by model, system and session.
pub proof fn request_mixes_read_requests(x: TokenExprs, window: Window)
    ensures
        sources::request_mix_query(x, window).text == sources::request_mix_columns_text(x) + " FROM spans WHERE "@ + "name = 'claude_code.llm_request' AND json_valid(attributes)"@ + span_window(window) + " GROUP BY model, system, session_id"@,
        sources::request_mix_query(x, window).binds == bounds(window),
{
    lemma_spans(sources::request_mix_columns_text(x), "name = 'claude_code.llm_request' AND json_valid(attributes)"@, window);
    let q = analytics::on_spans(sources::request_mix_columns_text(x), "name = 'claude_code.llm_request' AND json_valid(attributes)"@, window);
}

/// The kinds of failures are read of the model calls that failed.
pub proof fn failures_read_failed_calls(x: TokenExprs, window: Window, model: Option<Seq<char>>)
    ensures
        calls::error_types_query(x, window, model).text == calls::error_columns_text(x) + " FROM spans WHERE "@ + (x.llm_span_guard@ + " AND status_code = 2"@) + span_window(window) + store_laws::piece(model is Some, " AND ("@ + x.model@ + ") = ?"@) + ") SELECT model, error_type, CASE WHEN LOWER(error_type) LIKE '%rate%limit%' OR error_type LIKE '%429%' OR LOWER(error_type) LIKE '%throttl%' THEN 'rate_limit' WHEN LOWER(error_type) LIKE '%timeout%' OR error_type IN ('408', '504') OR LOWER(error_type) LIKE '%deadline%' THEN 'timeout' WHEN LOWER(error_type) LIKE '%context%length%' OR LOWER(error_type) LIKE '%context%window%' OR LOWER(error_type) LIKE '%max%token%' OR LOWER(error_type) LIKE '%too%long%' THEN 'context_length' WHEN LOWER(error_type) LIKE '%content_filter%' OR LOWER(error_type) LIKE '%moderation%' OR LOWER(error_type) LIKE '%content_policy%' OR LOWER(error_type) LIKE '%safety%' THEN 'content_filter' WHEN error_type IN ('401', '403') OR LOWER(error_type) LIKE '%unauthor%' OR LOWER(error_type) LIKE '%forbid%' OR LOWER(error_type) LIKE '%invalid%api%key%' THEN 'auth' WHEN CAST(error_type AS INTEGER) BETWEEN 500 AND 599 THEN 'server_error' ELSE 'unknown' END AS bucket, COUNT(*) AS count FROM error_spans GROUP BY model, error_type, bucket ORDER BY count DESC"@,
        calls::error_types_query(x, window, model).binds == bounds(window) + model_bind(model),
{
    lemma_spans(calls::error_columns_text(x), (x.llm_span_guard@ + " AND status_code = 2"@), window);
    let q = analytics::on_spans(calls::error_columns_text(x), (x.llm_span_guard@ + " AND status_code = 2"@), window);
    lemma_model(q, x, model);
}

/// All calls are read, those with the most tokens first.
pub proof fn all_calls_are_read(x: TokenExprs, window: Window)
    ensures
        calls::all_calls_query(x, window).text == calls::top_columns_text(x) + " FROM spans WHERE "@ + x.llm_span_guard@ + span_window(window) + " ORDER BY total_tokens DESC"@,
        calls::all_calls_query(x, window).binds == bounds(window),
{
    lemma_spans(calls::top_columns_text(x), x.llm_span_guard@, window);
    let q = analytics::on_spans(calls::top_columns_text(x), x.llm_span_guard@, window);
    assert(q.text + " ORDER BY "@ + "total_tokens DESC"@ =~= q.text + " ORDER BY total_tokens DESC"@) by {
        reveal_strlit(" ORDER BY ");
        reveal_strlit("total_tokens DESC");
        reveal_strlit(" ORDER BY total_tokens DESC");
    }
}

/// The calls of tools are read of the spans that name a tool, the most used tool first.
pub proof fn tool_usage_reads_tool_spans(window: Window, limit: usize)
    ensures
        tools::tool_usage_query(window, limit).text == "SELECT COALESCE(COALESCE(json_extract(attributes, '$.\"gen_ai.tool.name\"'), json_extract(attributes, '$.\"tool.name\"'), json_extract(attributes, '$.\"tool_name\"')), CASE WHEN name LIKE 'claude_code.tool.%' AND name != 'claude_code.tool.' THEN name ELSE NULL END) AS tool_name, COUNT(*) AS cnt, SUM(CASE WHEN status_code = 2 THEN 1 ELSE 0 END) AS errors, SUM(CASE WHEN status_code = 1 OR status_code = 0 THEN 1 ELSE 0 END) AS ok_cnt, COALESCE(SUM(end_time - start_time), 0) AS total_duration_ns"@ + " FROM spans WHERE "@ + "json_valid(attributes) AND (COALESCE(json_extract(attributes, '$.\"gen_ai.tool.name\"'), json_extract(attributes, '$.\"tool.name\"'), json_extract(attributes, '$.\"tool_name\"')) IS NOT NULL OR (name LIKE 'claude_code.tool.%' AND name != 'claude_code.tool.'))"@ + span_window(window) + " GROUP BY tool_name HAVING tool_name IS NOT NULL ORDER BY cnt DESC"@ + " LIMIT ?"@,
        tools::tool_usage_query(window, limit).binds == bounds(window) + seq![Bind::Integer(limit as i64)],
{
    lemma_spans("SELECT COALESCE(COALESCE(json_extract(attributes, '$.\"gen_ai.tool.name\"'), json_extract(attributes, '$.\"tool.name\"'), json_extract(attributes, '$.\"tool_name\"')), CASE WHEN name LIKE 'claude_code.tool.%' AND name != 'claude_code.tool.' THEN name ELSE NULL END) AS tool_name, COUNT(*) AS cnt, SUM(CASE WHEN status_code = 2 THEN 1 ELSE 0 END) AS errors, SUM(CASE WHEN status_code = 1 OR status_code = 0 THEN 1 ELSE 0 END) AS ok_cnt, COALESCE(SUM(end_time - start_time), 0) AS total_duration_ns"@, "json_valid(attributes) AND (COALESCE(json_extract(attributes, '$.\"gen_ai.tool.name\"'), json_extract(attributes, '$.\"tool.name\"'), json_extract(attributes, '$.\"tool_name\"')) IS NOT NULL OR (name LIKE 'claude_code.tool.%' AND name != 'claude_code.tool.'))"@, window);
    let q = analytics::on_spans("SELECT COALESCE(COALESCE(json_extract(attributes, '$.\"gen_ai.tool.name\"'), json_extract(attributes, '$.\"tool.name\"'), json_extract(attributes, '$.\"tool_name\"')), CASE WHEN name LIKE 'claude_code.tool.%' AND name != 'claude_code.tool.' THEN name ELSE NULL END) AS tool_name, COUNT(*) AS cnt, SUM(CASE WHEN status_code = 2 THEN 1 ELSE 0 END) AS errors, SUM(CASE WHEN status_code = 1 OR status_code = 0 THEN 1 ELSE 0 END) AS ok_cnt, COALESCE(SUM(end_time - start_time), 0) AS total_duration_ns"@, "json_valid(attributes) AND (COALESCE(json_extract(attributes, '$.\"gen_ai.tool.name\"'), json_extract(attributes, '$.\"tool.name\"'), json_extract(attributes, '$.\"tool_name\"')) IS NOT NULL OR (name LIKE 'claude_code.tool.%' AND name != 'claude_code.tool.'))"@, window);
    assert(bounds(window).push(Bind::Integer(limit as i64)) =~= bounds(window) + seq![Bind::Integer(limit as i64)]);
}

/// The errors of tools are read of the executions that failed with a message, the most frequent first.
pub proof fn tool_errors_read_failed_executions(window: Window, limit: usize)
    ensures
        tools::tool_errors_query(window, limit).text == "SELECT COALESCE(json_extract(attributes, '$.tool_name'), '(unknown)') AS tool_name, SUBSTR(json_extract(attributes, '$.error'), 1, 120) AS error_msg, COUNT(*) AS cnt"@ + " FROM spans WHERE "@ + "name = 'claude_code.tool.execution' AND json_valid(attributes) AND json_extract(attributes, '$.success') = 'false' AND json_extract(attributes, '$.error') IS NOT NULL"@ + span_window(window) + " GROUP BY tool_name, error_msg ORDER BY cnt DESC"@ + " LIMIT ?"@,
        tools::tool_errors_query(window, limit).binds == bounds(window) + seq![Bind::Integer(limit as i64)],
{
    lemma_spans("SELECT COALESCE(json_extract(attributes, '$.tool_name'), '(unknown)') AS tool_name, SUBSTR(json_extract(attributes, '$.error'), 1, 120) AS error_msg, COUNT(*) AS cnt"@, "name = 'claude_code.tool.execution' AND json_valid(attributes) AND json_extract(attributes, '$.success') = 'false' AND json_extract(attributes, '$.error') IS NOT NULL"@, window);
    let q = analytics::on_spans("SELECT COALESCE(json_extract(attributes, '$.tool_name'), '(unknown)') AS tool_name, SUBSTR(json_extract(attributes, '$.error'), 1, 120) AS error_msg, COUNT(*) AS cnt"@, "name = 'claude_code.tool.execution' AND json_valid(attributes) AND json_extract(attributes, '$.success') = 'false' AND json_extract(attributes, '$.error') IS NOT NULL"@, window);
    assert(bounds(window).push(Bind::Integer(limit as i64)) =~= bounds(window) + seq![Bind::Integer(limit as i64)]);
}

/// The decisions on tools are read of the spans that waited for the user.
pub proof fn approvals_read_the_waits_for_the_user(window: Window)
    ensures
        tools::tool_approvals_query(window).text == "SELECT json_extract(attributes, '$.decision') AS decision, json_extract(attributes, '$.source') AS source, json_extract(attributes, '$.tool_name') AS tool_name, COUNT(*) AS cnt"@ + " FROM spans WHERE "@ + "name = 'claude_code.tool.blocked_on_user'"@ + span_window(window) + " GROUP BY decision, source, tool_name ORDER BY cnt DESC"@,
        tools::tool_approvals_query(window).binds == bounds(window),
{
    lemma_spans("SELECT json_extract(attributes, '$.decision') AS decision, json_extract(attributes, '$.source') AS source, json_extract(attributes, '$.tool_name') AS tool_name, COUNT(*) AS cnt"@, "name = 'claude_code.tool.blocked_on_user'"@, window);
    let q = analytics::on_spans("SELECT json_extract(attributes, '$.decision') AS decision, json_extract(attributes, '$.source') AS source, json_extract(attributes, '$.tool_name') AS tool_name, COUNT(*) AS cnt"@, "name = 'claude_code.tool.blocked_on_user'"@, window);
}

/// The spans of one name are counted by the hour of the day at which they start.
pub proof fn hours_count_the_spans_of_a_name(name: Seq<char>, window: Window)
    ensures
        tools::hours_query(name, window).text == "SELECT CAST(strftime('%H', start_time/1000000000, 'unixepoch') AS INTEGER) AS h, COUNT(*) AS cnt"@ + " FROM spans WHERE "@ + ("name = '"@ + name + "'"@) + span_window(window) + " GROUP BY h"@,
        tools::hours_query(name, window).binds == bounds(window),
{
    lemma_spans("SELECT CAST(strftime('%H', start_time/1000000000, 'unixepoch') AS INTEGER) AS h, COUNT(*) AS cnt"@, ("name = '"@ + name + "'"@), window);
    let q = analytics::on_spans("SELECT CAST(strftime('%H', start_time/1000000000, 'unixepoch') AS INTEGER) AS h, COUNT(*) AS cnt"@, ("name = '"@ + name + "'"@), window);
}

/// How the largest calls are ordered: by all tokens or by duration from the most, by output for each token
/// of the whole prompt from the most, and by cache use from the least.
pub open spec fn order_of(sort_by: TopSpanSort) -> Seq<char> {
    match sort_by {
        TopSpanSort::TotalTokens => "total_tokens DESC"@,
        TopSpanSort::Duration => "(end_time - start_time) DESC"@,
        TopSpanSort::OutputInputRatio => "CAST(COALESCE(output_tokens_raw, 0) AS FLOAT) / NULLIF(COALESCE(input_tokens_raw, 0) + COALESCE(cache_creation_tokens_raw, 0) + COALESCE(cache_read_tokens_raw, 0), 0) DESC"@,
        TopSpanSort::CacheEfficiency => "CAST(COALESCE(cache_read_tokens_raw, 0) AS FLOAT) / NULLIF(COALESCE(input_tokens_raw, 0) + COALESCE(cache_read_tokens_raw, 0), 0) ASC"@,
    }
}

/// The largest calls are read in the order that is asked for, and only those that were cut off where that
/// is asked for.
pub proof fn the_largest_calls_are_read(
    x: TokenExprs,
    window: Window,
    limit: usize,
    sort_by: TopSpanSort,
    truncated_only: bool,
)
    ensures
        calls::top_spans_query(x, window, limit, sort_by, truncated_only).text == calls::top_columns_text(x)
            + " FROM spans WHERE "@ + x.llm_span_guard@ + span_window(window) + store_laws::piece(
            truncated_only,
            " AND (json_extract(attributes, '$.\"gen_ai.response.finish_reason\"') IN ('max_tokens','length') OR (json_type(attributes, '$.\"gen_ai.response.finish_reasons\"') = 'array' AND json_extract(json_extract(attributes, '$.\"gen_ai.response.finish_reasons\"'), '$[0]') IN ('max_tokens','length')))"@,
        ) + " ORDER BY "@ + order_of(sort_by) + " LIMIT ?"@,
        calls::top_spans_query(x, window, limit, sort_by, truncated_only).binds == bounds(window) + seq![
            Bind::Integer(limit as i64),
        ],
{
    lemma_spans(calls::top_columns_text(x), x.llm_span_guard@, window);
    let q = analytics::on_spans(calls::top_columns_text(x), x.llm_span_guard@, window);
    assert(q.text + Seq::<char>::empty() =~= q.text);
    assert(bounds(window).push(Bind::Integer(limit as i64)) =~= bounds(window) + seq![Bind::Integer(limit as i64)]);
}

/// Finish reasons are counted over spans with one reason, spans with a list of them and logged responses,
/// each in the window.
pub proof fn finish_reasons_are_counted(x: TokenExprs, window: Window, model: Option<Seq<char>>)
    ensures
        ({
            let only = store_laws::piece(model is Some, " AND ("@ + x.model@ + ") = ?"@);
            let q = calls::finish_reasons_query(x, window, model);
            &&& q.text == "WITH reasons AS (SELECT json_extract(attributes, '$.\"gen_ai.response.finish_reason\"') AS reason FROM spans WHERE json_valid(attributes) AND (json_extract(attributes, '$.\"gen_ai.response.finish_reason\"') IS NOT NULL OR json_extract(attributes, '$.\"gen_ai.response.finish_reasons\"') IS NOT NULL) AND json_extract(attributes, '$.\"gen_ai.response.finish_reason\"') IS NOT NULL"@ + span_window(window) + only
                + " UNION ALL SELECT je.value AS reason FROM (SELECT json_extract(attributes, '$.\"gen_ai.response.finish_reasons\"') AS arr FROM spans WHERE json_valid(attributes) AND (json_extract(attributes, '$.\"gen_ai.response.finish_reason\"') IS NOT NULL OR json_extract(attributes, '$.\"gen_ai.response.finish_reasons\"') IS NOT NULL) AND json_extract(attributes, '$.\"gen_ai.response.finish_reasons\"') IS NOT NULL AND json_valid(json_extract(attributes, '$.\"gen_ai.response.finish_reasons\"')) AND json_type(json_extract(attributes, '$.\"gen_ai.response.finish_reasons\"')) = 'array'"@ + span_window(window) + only
                + ") s, json_each(s.arr) je UNION ALL SELECT json_extract(body_json, '$.stop_reason') AS reason FROM (SELECT json_extract(attributes, '$.body') AS body_json FROM logs WHERE body = 'claude_code.api_response_body' AND json_extract(attributes, '$.body') IS NOT NULL AND json_valid(json_extract(attributes, '$.body'))"@ + point_window(window)
                + ") l WHERE json_extract(body_json, '$.stop_reason') IS NOT NULL) SELECT reason, COUNT(*) AS cnt FROM reasons WHERE reason IS NOT NULL GROUP BY reason ORDER BY cnt DESC"@
            &&& q.binds == bounds(window) + model_bind(model) + bounds(window) + model_bind(model) + bounds(window)
        }),
{
    let a = listing::begin(calls::SINGLE_REASON_SPANS@);
    lemma_window(a, window);
    assert(Seq::<Bind>::empty() + bounds(window) =~= bounds(window));
    let b = listing::in_span_window(a, window.start, window.end);
    lemma_model(b, x, model);
    let c = analytics::for_model(b, x, model).plus(calls::REASON_LIST_SPANS@);
    lemma_window(c, window);
    let d = listing::in_span_window(c, window.start, window.end);
    lemma_model(d, x, model);
    let e = analytics::for_model(d, x, model).plus(calls::REASON_LOGS@);
    lemma_window(e, window);
}

/// Retrievals are counted in the window, and their queries read from the most frequent.
pub proof fn retrievals_are_read(window: Window, limit: usize)
    ensures
        calls::retrieval_summary_query(window).text == "WITH retrieval_spans AS (SELECT CAST(json_extract(attributes, '$.\"retrieval.query\"') AS TEXT) AS query, COALESCE(json_array_length(json_extract(attributes, '$.\"retrieval.documents\"')), 0) AS doc_count, CAST(json_extract(attributes, '$.\"retrieval.documents\"[0].\"document.score\"') AS REAL) AS top_score FROM spans WHERE json_valid(attributes) AND (json_extract(attributes, '$.\"openinference.span.kind\"') = 'RETRIEVER' OR json_extract(attributes, '$.\"retrieval.query\"') IS NOT NULL)"@
            + span_window(window) + ") SELECT COUNT(*) AS total, COALESCE(AVG(CAST(doc_count AS REAL)), 0.0) AS avg_docs, AVG(top_score) AS avg_top_score FROM retrieval_spans"@,
        calls::retrieval_summary_query(window).binds == bounds(window),
        calls::retrieval_queries_query(window, limit).text == "WITH retrieval_spans AS (SELECT CAST(json_extract(attributes, '$.\"retrieval.query\"') AS TEXT) AS query, COALESCE(json_array_length(json_extract(attributes, '$.\"retrieval.documents\"')), 0) AS doc_count, CAST(json_extract(attributes, '$.\"retrieval.documents\"[0].\"document.score\"') AS REAL) AS top_score FROM spans WHERE json_valid(attributes) AND (json_extract(attributes, '$.\"openinference.span.kind\"') = 'RETRIEVER' OR json_extract(attributes, '$.\"retrieval.query\"') IS NOT NULL)"@
            + span_window(window) + ") SELECT query, COUNT(*) AS cnt, COALESCE(AVG(CAST(doc_count AS REAL)), 0.0) AS avg_docs, AVG(top_score) AS avg_top_score FROM retrieval_spans WHERE query IS NOT NULL GROUP BY query ORDER BY cnt DESC"@ + " LIMIT ?"@,
        calls::retrieval_queries_query(window, limit).binds == bounds(window) + seq![Bind::Integer(limit as i64)],
{
    lemma_window(listing::begin(calls::RETRIEVALS@), window);
    assert(Seq::<Bind>::empty() + bounds(window) =~= bounds(window));
    assert(bounds(window).push(Bind::Integer(limit as i64)) =~= bounds(window) + seq![Bind::Integer(limit as i64)]);
}

/// The newest ten thousand and one spans of the window are read, each with how often it was delivered again.
pub proof fn newest_spans_are_examined(window: Window)
    ensures
        calls::capabilities_query(window).text == "WITH recent_spans AS (SELECT trace_id, span_id, parent_span_id, name, kind, start_time, end_time, COALESCE(attributes, '{}') AS attributes, COALESCE(events, '[]') AS events, COALESCE(status_code, 0) AS status_code, status_message, COALESCE(resource, 'null') AS resource, created_at, id FROM spans WHERE 1=1"@
            + span_window(window) + " ORDER BY start_time DESC, id DESC LIMIT "@ + text::decimal(10_001)
            + "), ranked_spans AS (SELECT trace_id, span_id, parent_span_id, name, kind, start_time, end_time, COALESCE(attributes, '{}') AS attributes, COALESCE(events, '[]') AS events, COALESCE(status_code, 0) AS status_code, status_message, COALESCE(resource, 'null') AS resource, created_at, id, ROW_NUMBER() OVER (PARTITION BY trace_id, span_id ORDER BY created_at ASC, id ASC) AS delivery_rank, COUNT(*) OVER (PARTITION BY trace_id, span_id) - 1 AS duplicate_deliveries FROM recent_spans) SELECT trace_id, span_id, parent_span_id, name, kind, start_time, end_time, attributes, events, status_code, status_message, resource, duplicate_deliveries FROM ranked_spans WHERE delivery_rank = 1 ORDER BY start_time DESC, id DESC"@,
        calls::capabilities_query(window).binds == bounds(window),
{
    lemma_window(listing::begin(calls::RECENT_SPANS@), window);
    assert(Seq::<Bind>::empty() + bounds(window) =~= bounds(window));
}

/// The points of a counter are read with their labels, their time and their value, in the window.
pub proof fn counters_are_read_in_the_window(name: Seq<char>, paths: Seq<Seq<char>>, window: Window)
    ensures
        sources::counter_window_query(name, paths, window).text == "SELECT "@ + layout::joined(
            Seq::new(
                paths.len(),
                |i: int|
                    "CASE WHEN json_valid(attributes) THEN json_extract(attributes, '"@ + paths[i] + "') END"@,
            ),
            ", "@,
        ) + ", timestamp, "@ + "COALESCE(value_int, CAST(value_double AS INTEGER))"@
            + " FROM metrics WHERE name = ?"@ + point_window(window),
        sources::counter_window_query(name, paths, window).binds == seq![Bind::Text(name)] + bounds(window),
{
    let exprs = Seq::new(
        paths.len(),
        |i: int| "CASE WHEN json_valid(attributes) THEN json_extract(attributes, '"@ + paths[i] + "') END"@,
    );
    assert(exprs =~= sources::label_exprs(paths));
    let columns = "SELECT "@ + layout::joined(exprs, ", "@) + ", timestamp, "@ + sources::COUNTER_VALUE@
        + " FROM metrics WHERE name = ?"@;
    let q = listing::begin(columns).with(Bind::Text(name));
    assert(q.binds =~= seq![Bind::Text(name)]);
    lemma_window(q, window);
}

/// The baseline of a series is the last value before the window, and the largest of one time. A further
/// label narrows it to the points with that label, or without it where it is absent.
pub proof fn baselines_are_the_last_values_before(
    name: Seq<char>,
    paths: Seq<Seq<char>>,
    labels: Seq<Option<Seq<char>>>,
    start: i64,
    path: Seq<char>,
    label: Option<Seq<char>>,
    narrowed: Query,
)
    requires
        paths.len() == labels.len(),
        narrowed == sources::in_series(
            listing::begin(
                "SELECT COALESCE(value_int, CAST(value_double AS INTEGER)) FROM metrics WHERE name = ? AND timestamp < ?"@,
            ).with(Bind::Text(name)).with(Bind::Integer(start)),
            paths,
            labels,
        ),
    ensures
        sources::counter_baseline_query(name, paths, labels, start).text == narrowed.text
            + " ORDER BY timestamp DESC, COALESCE(value_int, CAST(value_double AS INTEGER)) DESC LIMIT 1"@,
        sources::counter_baseline_query(name, paths, labels, start).binds == narrowed.binds,
        sources::in_series(narrowed, seq![path], seq![label]).text == narrowed.text + (
        " AND CASE WHEN json_valid(attributes) THEN json_extract(attributes, '"@ + path + "') END IS ?"@),
        sources::in_series(narrowed, seq![path], seq![label]).binds == narrowed.binds.push(
            match label {
                Some(t) => Bind::Text(t),
                None => Bind::Null,
            },
        ),
        paths.len() == 0 ==> narrowed.binds == seq![Bind::Text(name), Bind::Integer(start)],
{
    reveal_strlit("SELECT ");
    reveal_strlit("COALESCE(value_int, CAST(value_double AS INTEGER))");
    reveal_strlit(" FROM metrics WHERE name = ? AND timestamp < ?");
    reveal_strlit("SELECT COALESCE(value_int, CAST(value_double AS INTEGER)) FROM metrics WHERE name = ? AND timestamp < ?");
    reveal_strlit(" ORDER BY timestamp DESC, ");
    reveal_strlit(" DESC LIMIT 1");
    reveal_strlit(" ORDER BY timestamp DESC, COALESCE(value_int, CAST(value_double AS INTEGER)) DESC LIMIT 1");
    assert("SELECT "@ + sources::COUNTER_VALUE@ + " FROM metrics WHERE name = ? AND timestamp < ?"@
        =~= "SELECT COALESCE(value_int, CAST(value_double AS INTEGER)) FROM metrics WHERE name = ? AND timestamp < ?"@);
    assert(" ORDER BY timestamp DESC, "@ + sources::COUNTER_VALUE@ + " DESC LIMIT 1"@
        =~= " ORDER BY timestamp DESC, COALESCE(value_int, CAST(value_double AS INTEGER)) DESC LIMIT 1"@);
    reveal_with_fuel(sources::in_series, 2);
    assert(seq![path].drop_last() =~= Seq::<Seq<char>>::empty());
    assert(" AND "@ + ("CASE WHEN json_valid(attributes) THEN json_extract(attributes, '"@ + path + "') END"@) + " IS ?"@
        =~= " AND CASE WHEN json_valid(attributes) THEN json_extract(attributes, '"@ + path + "') END IS ?"@) by {
        reveal_strlit(" AND ");
        reveal_strlit("CASE WHEN json_valid(attributes) THEN json_extract(attributes, '");
        reveal_strlit(" AND CASE WHEN json_valid(attributes) THEN json_extract(attributes, '");
        reveal_strlit("') END");
        reveal_strlit(" IS ?");
        reveal_strlit("') END IS ?");
    }
    assert(Seq::<Bind>::empty().push(Bind::Text(name)).push(Bind::Integer(start)) =~= seq![
        Bind::Text(name),
        Bind::Integer(start),
    ]);
}

/// The points of one metric are read in the window: the agents, models and sessions of the calls, the
/// providers and models of the calls, and the models, kinds and numbers of the tokens of the turns.
pub proof fn points_are_read_of_their_metric(columns: Seq<char>, name: Seq<char>, window: Window)
    ensures
        sources::on_metric(columns, name, window).text == columns + " FROM metrics WHERE name = ?"@ + point_window(
            window,
        ),
        sources::on_metric(columns, name, window).binds == seq![Bind::Text(name)] + bounds(window),
        columns == sources::PRESENCE@ ==> columns == "SELECT CASE WHEN json_valid(attributes) THEN json_extract(attributes, '$.agent') END, CASE WHEN json_valid(attributes) THEN json_extract(attributes, '$.model') END, CASE WHEN json_valid(attributes) THEN json_extract(attributes, '$.\"session.id\"') END"@,
        columns == sources::CALL_PROVIDERS@ ==> columns == "SELECT CASE WHEN json_valid(attributes) THEN json_extract(attributes, '$.provider') END, CASE WHEN json_valid(attributes) THEN json_extract(attributes, '$.model') END"@,
        columns == sources::TURN_TOKENS@ ==> columns == "SELECT CASE WHEN json_valid(attributes) THEN json_extract(attributes, '$.model') END, CASE WHEN json_valid(attributes) THEN json_extract(attributes, '$.token_type') END, COALESCE(CASE WHEN json_valid(value_histogram) THEN json_extract(value_histogram, '$[1]') END, 0.0)"@,
        name == sources::TOKEN_COUNTER@ ==> name == "opencode.token.usage"@,
        name == sources::CALL_COUNTER@ ==> name == "opencode.model.usage"@,
        name == sources::TURN_HISTOGRAM@ ==> name == "codex.turn.token_usage"@,
{
    let q = listing::begin(columns + " FROM metrics WHERE name = ?"@).with(Bind::Text(name));
    assert(q.binds =~= seq![Bind::Text(name)]);
    lemma_window(q, window);
}

/// Tokens are read by bucket: the width of a bucket is bound twice, then the name of the metric where
/// there is one, then the window.
pub proof fn buckets_are_read_in_the_window(x: TokenExprs, window: Window, bucket_ns: i64)
    ensures
        sources::turn_buckets_query(window, bucket_ns).text == "SELECT (timestamp / ?) * ? AS bucket, CASE WHEN json_valid(attributes) THEN json_extract(attributes, '$.model') END AS model, CASE WHEN json_valid(attributes) THEN json_extract(attributes, '$.token_type') END AS token_type, SUM(CASE WHEN json_valid(value_histogram) THEN json_extract(value_histogram, '$[1]') ELSE 0 END) AS sum_tokens FROM metrics WHERE name = ? AND json_valid(attributes) AND CASE WHEN json_valid(attributes) THEN json_extract(attributes, '$.model') END IS NOT NULL AND CASE WHEN json_valid(attributes) THEN json_extract(attributes, '$.token_type') END IS NOT NULL"@
            + point_window(window) + " GROUP BY bucket, model, token_type"@,
        sources::turn_buckets_query(window, bucket_ns).binds == seq![
            Bind::Integer(bucket_ns),
            Bind::Integer(bucket_ns),
            Bind::Text("codex.turn.token_usage"@),
        ] + bounds(window),
        sources::request_buckets_query(x, window, bucket_ns).text == sources::request_bucket_columns_text(x)
            + span_window(window) + " GROUP BY bucket, model"@,
        sources::request_buckets_query(x, window, bucket_ns).binds == seq![
            Bind::Integer(bucket_ns),
            Bind::Integer(bucket_ns),
        ] + bounds(window),
{
    let q = listing::begin(sources::TURN_BUCKETS@).with(Bind::Integer(bucket_ns)).with(Bind::Integer(bucket_ns)).with(
        Bind::Text(sources::TURN_HISTOGRAM@),
    );
    assert(q.binds =~= seq![
        Bind::Integer(bucket_ns),
        Bind::Integer(bucket_ns),
        Bind::Text("codex.turn.token_usage"@),
    ]);
    lemma_window(q, window);
    let r = listing::begin(sources::request_bucket_columns_text(x)).with(Bind::Integer(bucket_ns)).with(
        Bind::Integer(bucket_ns),
    );
    assert(r.binds =~= seq![Bind::Integer(bucket_ns), Bind::Integer(bucket_ns)]);
    lemma_window(r, window);
}

/// What the spans of a series are told apart by, and which are read: all spans by their name, or the calls
/// whose duration can be relied on by their model.
pub open spec fn series_label(x: TokenExprs, all_spans: bool) -> Seq<char> {
    if all_spans {
        "name"@
    } else {
        x.model@
    }
}

/// The condition on the spans of a series.
pub open spec fn series_guard(x: TokenExprs, all_spans: bool) -> Seq<char> {
    if all_spans {
        "1=1"@
    } else {
        x.request_span_guard@
    }
}

/// Latency over time reads the bucket, the label, the milliseconds, the times to first token and the outcome
/// of each span, in the order of time; only calls are narrowed to a model.
pub proof fn latency_over_time_is_read(
    x: TokenExprs,
    window: Window,
    width: int,
    model: Option<Seq<char>>,
    all_spans: bool,
)
    ensures
        series::latency_series_query(x, window, width, model, all_spans).text == "SELECT "@ + ("(start_time / "@
            + text::signed_decimal(width) + ") * "@ + text::signed_decimal(width)) + " AS bucket, "@ + series_label(
            x,
            all_spans,
        ) + " AS group_label, (end_time - start_time) / 1000000 AS duration_ms, "@
            + "json_extract(attributes, '$.\"gen_ai.server.time_to_first_token\"') AS otel_ttft_secs, json_extract(attributes, '$.\"llm.time_to_first_token\"') AS llm_ttft_secs, json_extract(attributes, '$.\"ttft_ms\"') AS custom_ttft_ms"@
            + ", CASE WHEN status_code = 2 THEN 1 ELSE 0 END AS is_error"@ + " FROM spans WHERE "@ + series_guard(
            x,
            all_spans,
        ) + span_window(window) + store_laws::piece(!all_spans && model is Some, " AND ("@ + x.model@ + ") = ?"@)
            + " ORDER BY bucket ASC"@,
        series::latency_series_query(x, window, width, model, all_spans).binds == bounds(window) + if all_spans {
            Seq::empty()
        } else {
            model_bind(model)
        },
{
    let columns = "SELECT "@ + series::bucket_text(width) + " AS bucket, "@ + series_label(x, all_spans)
        + " AS group_label, (end_time - start_time) / 1000000 AS duration_ms, "@ + analytics::TTFT_COLUMNS@
        + ", CASE WHEN status_code = 2 THEN 1 ELSE 0 END AS is_error"@;
    lemma_spans(columns, series_guard(x, all_spans), window);
    lemma_model(
        analytics::on_spans(columns, series_guard(x, all_spans), window),
        x,
        series::call_model(all_spans, model),
    );
}

/// Calls over time reads the number of spans under each label in each bucket, in the order of time.
pub proof fn calls_over_time_are_counted(x: TokenExprs, window: Window, width: int, all_spans: bool)
    ensures
        series::calls_series_query(x, window, width, all_spans).text == "SELECT "@ + ("(start_time / "@
            + text::signed_decimal(width) + ") * "@ + text::signed_decimal(width)) + " AS bucket, "@ + series_label(
            x,
            all_spans,
        ) + " AS label, COUNT(*) AS requests"@ + " FROM spans WHERE "@ + series_guard(x, all_spans) + span_window(
            window,
        ) + (" GROUP BY bucket, "@ + series_label(x, all_spans) + " ORDER BY bucket ASC"@),
        series::calls_series_query(x, window, width, all_spans).binds == bounds(window),
{
    let columns = "SELECT "@ + series::bucket_text(width) + " AS bucket, "@ + series_label(x, all_spans)
        + " AS label, COUNT(*) AS requests"@;
    lemma_spans(columns, series_guard(x, all_spans), window);
}

/// The keys of resources are read of the newest records of a table, up to fifty; logs and metrics are the
/// newest by their time, and spans by their start.
pub proof fn resource_keys_are_read_of_the_newest_records(table: Seq<char>, time: Seq<char>)
    ensures
        records::resource_keys_text(table, time) == "SELECT je.key FROM (SELECT "@ + table
            + ".resource AS resource FROM "@ + table + " ORDER BY "@ + time
            + " DESC LIMIT 50000) r, json_each(CASE WHEN json_valid(r.resource) THEN json_extract(r.resource, '$.attributes') END) je GROUP BY je.key LIMIT 50"@,
        records::time_column(table) == Some(time) ==> (time == "timestamp"@ && (table == "logs"@ || table == "metrics"@)
            || time == "start_time"@ && table == "spans"@),
        table == "logs"@ || table == "metrics"@ || table == "spans"@ <==> records::time_column(table) is Some,
{
    reveal_with_fuel(text::flat, 8);
    let parts = seq![
        "SELECT je.key FROM (SELECT "@,
        table,
        ".resource AS resource FROM "@,
        table,
        " ORDER BY "@,
        time,
        " DESC LIMIT 50000) r, json_each(CASE WHEN json_valid(r.resource) THEN json_extract(r.resource, '$.attributes') END) je GROUP BY je.key LIMIT 50"@,
    ];
    assert(text::flat(parts) =~= "SELECT je.key FROM (SELECT "@ + table + ".resource AS resource FROM "@ + table
        + " ORDER BY "@ + time
        + " DESC LIMIT 50000) r, json_each(CASE WHEN json_valid(r.resource) THEN json_extract(r.resource, '$.attributes') END) je GROUP BY je.key LIMIT 50"@);
}

/// Costs over time are read in the window, of one model where one is asked for, by bucket and model in the
/// order of time.
pub proof fn costs_over_time_are_read(x: TokenExprs, window: Window, bucket_ns: i64, model: Option<Seq<char>>)
    ensures
        series::cost_series_query(x, window, bucket_ns, model).text == series::cost_columns_text(x) + span_window(window)
            + store_laws::piece(model is Some, " AND ("@ + x.model@ + ") = ?"@)
            + " GROUP BY bucket, model ORDER BY bucket ASC"@,
        series::cost_series_query(x, window, bucket_ns, model).binds == seq![
            Bind::Integer(bucket_ns),
            Bind::Integer(bucket_ns),
        ] + bounds(window) + model_bind(model),
{
    let q = listing::begin(series::cost_columns_text(x)).with(Bind::Integer(bucket_ns)).with(Bind::Integer(bucket_ns));
    assert(q.binds =~= seq![Bind::Integer(bucket_ns), Bind::Integer(bucket_ns)]);
    lemma_window(q, window);
    lemma_model(listing::in_span_window(q, window.start, window.end), x, model);
}

} // verus!
