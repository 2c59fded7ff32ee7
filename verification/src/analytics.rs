//! Statements behind the analytics of model calls.
//!
//! The attribute names that span emitters use come in as SQL expressions, so that every statement
//! reads the same vocabulary.
use crate::listing;
use crate::sql::{Bind, Query, SqlValue, Statement};
use crate::text;
use vstd::prelude::*;

verus! {

/// SQL expressions over the `attributes` of a span: its tokens, its model and its system, and the
/// conditions under which it counts as a model call.
pub struct TokenExprs {
    pub input: String,
    pub output: String,
    pub cache_creation: String,
    pub cache_read: String,
    /// The model: the one that was asked for, or else the one that answered.
    pub model: String,
    pub request_model: String,
    pub response_model: String,
    pub system: String,
    /// The span is a model call.
    pub llm_span_guard: String,
    /// The span is a model call whose count and duration can be relied on.
    pub request_span_guard: String,
}

/// A time window; an absent bound does not narrow it.
#[derive(Clone, Copy)]
pub struct Window {
    pub start: Option<i64>,
    pub end: Option<i64>,
}

/// The finish reason of a span: the single one, or the first of several.
pub const FINISH_REASON: &'static str =
    "COALESCE(json_extract(attributes, '$.\"gen_ai.response.finish_reason\"'), CASE WHEN json_type(attributes, '$.\"gen_ai.response.finish_reasons\"') = 'array' THEN json_extract(json_extract(attributes, '$.\"gen_ai.response.finish_reasons\"'), '$[0]') ELSE NULL END)";

/// The spellings under which a span reports its time to first token.
pub const TTFT_COLUMNS: &'static str =
    "json_extract(attributes, '$.\"gen_ai.server.time_to_first_token\"') AS otel_ttft_secs, json_extract(attributes, '$.\"llm.time_to_first_token\"') AS llm_ttft_secs, json_extract(attributes, '$.\"ttft_ms\"') AS custom_ttft_ms";

/// The conversation of a span.
pub const CONVERSATION: &'static str = "json_extract(attributes, '$.\"gen_ai.conversation.id\"')";

/// The identity of a model: its provider and its name, or its name alone where no provider is known.
pub open spec fn identity_text(model: Seq<char>, system: Seq<char>) -> Seq<char> {
    text::flat(
        seq![
            "CASE WHEN ("@,
            system,
            ") IS NOT NULL THEN ("@,
            system,
            ") || '/' || ("@,
            model,
            ") ELSE ("@,
            model,
            ") END"@,
        ],
    )
}

/// The SQL expression of the identity of a model.
pub fn identity_expr(model: &str, system: &str) -> (s: String)
    ensures
        s@ == identity_text(model@, system@),
{
    let parts: Vec<&str> = vec![
        "CASE WHEN (",
        system,
        ") IS NOT NULL THEN (",
        system,
        ") || '/' || (",
        model,
        ") ELSE (",
        model,
        ") END",
    ];
    proof {
        assert(text::views(parts@) =~= seq![
            "CASE WHEN ("@,
            system@,
            ") IS NOT NULL THEN ("@,
            system@,
            ") || '/' || ("@,
            model@,
            ") ELSE ("@,
            model@,
            ") END"@,
        ]);
    }
    text::concat(&parts)
}

/// A statement on the spans that meet a condition, in a window.
pub open spec fn on_spans(select: Seq<char>, guard: Seq<char>, window: Window) -> Query {
    listing::in_span_window(
        listing::begin(select + " FROM spans WHERE "@ + guard),
        window.start,
        window.end,
    )
}

/// Begins a statement on the spans that meet a condition, in a window.
pub fn begin_on_spans(select: &str, guard: &str, window: Window) -> (s: Statement)
    ensures
        s@ == on_spans(select@, guard@, window),
{
    let mut sql = select.to_owned();
    sql.append(" FROM spans WHERE ");
    sql.append(guard);
    let mut s = Statement::new(sql.as_str());
    listing::add_span_window(&mut s, window.start, window.end);
    s
}

/// The statement narrowed to a model, where one is asked for.
pub open spec fn for_model(query: Query, x: TokenExprs, model: Option<Seq<char>>) -> Query {
    query.when_text(model, " AND ("@ + x.model@ + ") = ?"@)
}

/// Narrows a statement to a model, where one is asked for.
pub fn add_model(s: &mut Statement, x: &TokenExprs, model: &Option<String>)
    ensures
        final(s)@ == for_model(old(s)@, *x, text::optional(*model)),
{
    let mut clause = " AND (".to_owned();
    clause.append(x.model.as_str());
    clause.append(") = ?");
    s.add_optional(model, clause.as_str());
}

/// The statement limited to a number of rows.
pub open spec fn limited(query: Query, limit: usize) -> Query {
    query.plus(" LIMIT ?"@).with(Bind::Integer(limit as i64))
}

/// Limits a statement to a number of rows.
pub fn add_limit(s: &mut Statement, limit: usize)
    ensures
        final(s)@ == limited(old(s)@, limit),
{
    s.add_text(" LIMIT ?");
    s.add_value(SqlValue::Integer(#[verifier::truncate] (limit as i64)));
}

/// What is read for the tokens of all model calls.
pub open spec fn token_summary_columns_text(x: TokenExprs) -> Seq<char> {
    text::flat(
        seq![
            "SELECT COALESCE(SUM("@,
            x.input@,
            "), 0) AS total_input, COALESCE(SUM("@,
            x.output@,
            "), 0) AS total_output, COUNT(*) AS total_requests, COALESCE(SUM("@,
            x.cache_creation@,
            "), 0) AS cache_creation, COALESCE(SUM("@,
            x.cache_read@,
            "), 0) AS cache_read"@,
        ],
    )
}

fn token_summary_columns(x: &TokenExprs) -> (s: String)
    ensures
        s@ == token_summary_columns_text(*x),
{
    let parts: Vec<&str> = vec![
        "SELECT COALESCE(SUM(",
        x.input.as_str(),
        "), 0) AS total_input, COALESCE(SUM(",
        x.output.as_str(),
        "), 0) AS total_output, COUNT(*) AS total_requests, COALESCE(SUM(",
        x.cache_creation.as_str(),
        "), 0) AS cache_creation, COALESCE(SUM(",
        x.cache_read.as_str(),
        "), 0) AS cache_read",
    ];
    proof {
        assert(text::views(parts@) =~= seq![
            "SELECT COALESCE(SUM("@,
            x.input@,
            "), 0) AS total_input, COALESCE(SUM("@,
            x.output@,
            "), 0) AS total_output, COUNT(*) AS total_requests, COALESCE(SUM("@,
            x.cache_creation@,
            "), 0) AS cache_creation, COALESCE(SUM("@,
            x.cache_read@,
            "), 0) AS cache_read"@,
        ]);
    }
    text::concat(&parts)
}

/// Reads the tokens of all model calls.
pub open spec fn token_summary_query(x: TokenExprs, window: Window, model: Option<Seq<char>>) -> Query {
    for_model(on_spans(token_summary_columns_text(x), x.llm_span_guard@, window), x, model)
}

/// The statement that reads the tokens of all model calls.
pub fn query_token_summary(x: &TokenExprs, window: Window, model: &Option<String>) -> (s: Statement)
    ensures
        s@ == token_summary_query(*x, window, text::optional(*model)),
{
    let mut s = begin_on_spans(token_summary_columns(x).as_str(), x.llm_span_guard.as_str(), window);
    add_model(&mut s, x, model);
    s
}

/// What the usage of models is told apart by.
#[derive(Clone, Copy)]
pub enum ModelLabel {
    /// The name of the model.
    Name,
    /// The identity of the model: its provider and its name.
    Identity,
}

/// The SQL expression of a label.
pub open spec fn model_label(x: TokenExprs, by: ModelLabel) -> Seq<char> {
    match by {
        ModelLabel::Name => x.model@,
        ModelLabel::Identity => identity_text(x.model@, x.system@),
    }
}

/// What is read for the tokens of each model, by the model that was asked for and the one that answered.
pub open spec fn model_usage_columns_text(x: TokenExprs, by: ModelLabel) -> Seq<char> {
    text::flat(
        seq![
            "SELECT "@,
            model_label(x, by),
            " AS model, "@,
            x.request_model@,
            " AS request_model, "@,
            x.response_model@,
            " AS response_model, COALESCE(SUM("@,
            x.input@,
            "), 0) AS input_tokens, COALESCE(SUM("@,
            x.output@,
            "), 0) AS output_tokens, COUNT(*) AS requests"@,
        ],
    )
}

fn model_usage_columns(x: &TokenExprs, by: ModelLabel) -> (s: String)
    ensures
        s@ == model_usage_columns_text(*x, by),
{
    let label = match by {
        ModelLabel::Name => x.model.clone(),
        ModelLabel::Identity => identity_expr(x.model.as_str(), x.system.as_str()),
    };
    let parts: Vec<&str> = vec![
        "SELECT ",
        label.as_str(),
        " AS model, ",
        x.request_model.as_str(),
        " AS request_model, ",
        x.response_model.as_str(),
        " AS response_model, COALESCE(SUM(",
        x.input.as_str(),
        "), 0) AS input_tokens, COALESCE(SUM(",
        x.output.as_str(),
        "), 0) AS output_tokens, COUNT(*) AS requests",
    ];
    proof {
        assert(text::views(parts@) =~= seq![
            "SELECT "@,
            model_label(*x, by),
            " AS model, "@,
            x.request_model@,
            " AS request_model, "@,
            x.response_model@,
            " AS response_model, COALESCE(SUM("@,
            x.input@,
            "), 0) AS input_tokens, COALESCE(SUM("@,
            x.output@,
            "), 0) AS output_tokens, COUNT(*) AS requests"@,
        ]);
    }
    text::concat(&parts)
}

/// Reads the tokens of each model, by the model that was asked for and the one that answered.
pub open spec fn model_usage_query(
    x: TokenExprs,
    window: Window,
    model: Option<Seq<char>>,
    by: ModelLabel,
) -> Query {
    for_model(on_spans(model_usage_columns_text(x, by), x.llm_span_guard@, window), x, model).plus(
        " GROUP BY model, request_model, response_model HAVING model IS NOT NULL"@,
    )
}

/// The statement that reads the tokens of each model, by the model that was asked for and the one that
/// answered. A model is asked for by its name, whatever the label.
pub fn query_model_usage(x: &TokenExprs, window: Window, model: &Option<String>, by: ModelLabel) -> (s: Statement)
    ensures
        s@ == model_usage_query(*x, window, text::optional(*model), by),
{
    let mut s = begin_on_spans(model_usage_columns(x, by).as_str(), x.llm_span_guard.as_str(), window);
    add_model(&mut s, x, model);
    s.add_text(" GROUP BY model, request_model, response_model HAVING model IS NOT NULL");
    s
}

/// What is read for the tokens of each system, the busiest first.
pub open spec fn system_usage_columns_text(x: TokenExprs) -> Seq<char> {
    text::flat(
        seq![
            "SELECT "@,
            x.system@,
            " AS system, COALESCE(SUM("@,
            x.input@,
            "), 0) AS input_tokens, COALESCE(SUM("@,
            x.output@,
            "), 0) AS output_tokens, COUNT(*) AS requests"@,
        ],
    )
}

fn system_usage_columns(x: &TokenExprs) -> (s: String)
    ensures
        s@ == system_usage_columns_text(*x),
{
    let parts: Vec<&str> = vec![
        "SELECT ",
        x.system.as_str(),
        " AS system, COALESCE(SUM(",
        x.input.as_str(),
        "), 0) AS input_tokens, COALESCE(SUM(",
        x.output.as_str(),
        "), 0) AS output_tokens, COUNT(*) AS requests",
    ];
    proof {
        assert(text::views(parts@) =~= seq![
            "SELECT "@,
            x.system@,
            " AS system, COALESCE(SUM("@,
            x.input@,
            "), 0) AS input_tokens, COALESCE(SUM("@,
            x.output@,
            "), 0) AS output_tokens, COUNT(*) AS requests"@,
        ]);
    }
    text::concat(&parts)
}

/// Reads the tokens of each system, the busiest first.
pub open spec fn system_usage_query(x: TokenExprs, window: Window, model: Option<Seq<char>>) -> Query {
    for_model(on_spans(system_usage_columns_text(x), x.llm_span_guard@, window), x, model).plus(" GROUP BY system HAVING system IS NOT NULL ORDER BY input_tokens + output_tokens DESC"@)
}

/// The statement that reads the tokens of each system, the busiest first.
pub fn query_system_usage(x: &TokenExprs, window: Window, model: &Option<String>) -> (s: Statement)
    ensures
        s@ == system_usage_query(*x, window, text::optional(*model)),
{
    let mut s = begin_on_spans(system_usage_columns(x).as_str(), x.llm_span_guard.as_str(), window);
    add_model(&mut s, x, model);
    s.add_text(" GROUP BY system HAVING system IS NOT NULL ORDER BY input_tokens + output_tokens DESC");
    s
}

/// What is read for the sessions with the most tokens.
pub open spec fn top_sessions_columns_text(x: TokenExprs) -> Seq<char> {
    text::flat(
        seq![
            "SELECT json_extract(attributes, '$.\"session.id\"') AS session_id, COUNT(*) AS request_count, SUM(COALESCE("@,
            x.input@,
            ", 0)) AS input_tokens, SUM(COALESCE("@,
            x.output@,
            ", 0)) AS output_tokens, SUM(COALESCE("@,
            x.input@,
            ", 0) + COALESCE("@,
            x.output@,
            ", 0) + COALESCE("@,
            x.cache_creation@,
            ", 0) + COALESCE("@,
            x.cache_read@,
            ", 0)) AS total_tokens"@,
        ],
    )
}

fn top_sessions_columns(x: &TokenExprs) -> (s: String)
    ensures
        s@ == top_sessions_columns_text(*x),
{
    let parts: Vec<&str> = vec![
        "SELECT json_extract(attributes, '$.\"session.id\"') AS session_id, COUNT(*) AS request_count, SUM(COALESCE(",
        x.input.as_str(),
        ", 0)) AS input_tokens, SUM(COALESCE(",
        x.output.as_str(),
        ", 0)) AS output_tokens, SUM(COALESCE(",
        x.input.as_str(),
        ", 0) + COALESCE(",
        x.output.as_str(),
        ", 0) + COALESCE(",
        x.cache_creation.as_str(),
        ", 0) + COALESCE(",
        x.cache_read.as_str(),
        ", 0)) AS total_tokens",
    ];
    proof {
        assert(text::views(parts@) =~= seq![
            "SELECT json_extract(attributes, '$.\"session.id\"') AS session_id, COUNT(*) AS request_count, SUM(COALESCE("@,
            x.input@,
            ", 0)) AS input_tokens, SUM(COALESCE("@,
            x.output@,
            ", 0)) AS output_tokens, SUM(COALESCE("@,
            x.input@,
            ", 0) + COALESCE("@,
            x.output@,
            ", 0) + COALESCE("@,
            x.cache_creation@,
            ", 0) + COALESCE("@,
            x.cache_read@,
            ", 0)) AS total_tokens"@,
        ]);
    }
    text::concat(&parts)
}

/// Which spans are read for the sessions with the most tokens.
pub open spec fn top_sessions_guard_text(x: TokenExprs) -> Seq<char> {
    text::flat(
        seq![
            x.llm_span_guard@,
            " AND session_id IS NOT NULL"@,
        ],
    )
}

fn top_sessions_guard(x: &TokenExprs) -> (s: String)
    ensures
        s@ == top_sessions_guard_text(*x),
{
    let parts: Vec<&str> = vec![
        x.llm_span_guard.as_str(),
        " AND session_id IS NOT NULL",
    ];
    proof {
        assert(text::views(parts@) =~= seq![
            x.llm_span_guard@,
            " AND session_id IS NOT NULL"@,
        ]);
    }
    text::concat(&parts)
}

/// Reads the sessions with the most tokens.
pub open spec fn top_sessions_query(x: TokenExprs, window: Window, limit: usize) -> Query {
    limited(on_spans(top_sessions_columns_text(x), top_sessions_guard_text(x), window).plus(" GROUP BY session_id ORDER BY total_tokens DESC"@), limit)
}

/// The statement that reads the sessions with the most tokens.
pub fn query_top_sessions(x: &TokenExprs, window: Window, limit: usize) -> (s: Statement)
    ensures
        s@ == top_sessions_query(*x, window, limit),
{
    let mut s = begin_on_spans(top_sessions_columns(x).as_str(), top_sessions_guard(x).as_str(), window);
    s.add_text(" GROUP BY session_id ORDER BY total_tokens DESC");
    add_limit(&mut s, limit);
    s
}

/// What is read for the conversations with the most tokens.
pub open spec fn top_conversations_columns_text(x: TokenExprs) -> Seq<char> {
    text::flat(
        seq![
            "SELECT "@,
            CONVERSATION@,
            " AS conversation_id, COUNT(*) AS request_count, SUM(COALESCE("@,
            x.input@,
            ", 0)) AS input_tokens, SUM(COALESCE("@,
            x.output@,
            ", 0)) AS output_tokens, SUM(COALESCE("@,
            x.input@,
            ", 0) + COALESCE("@,
            x.output@,
            ", 0) + COALESCE("@,
            x.cache_creation@,
            ", 0) + COALESCE("@,
            x.cache_read@,
            ", 0)) AS total_tokens"@,
        ],
    )
}

fn top_conversations_columns(x: &TokenExprs) -> (s: String)
    ensures
        s@ == top_conversations_columns_text(*x),
{
    let parts: Vec<&str> = vec![
        "SELECT ",
        CONVERSATION,
        " AS conversation_id, COUNT(*) AS request_count, SUM(COALESCE(",
        x.input.as_str(),
        ", 0)) AS input_tokens, SUM(COALESCE(",
        x.output.as_str(),
        ", 0)) AS output_tokens, SUM(COALESCE(",
        x.input.as_str(),
        ", 0) + COALESCE(",
        x.output.as_str(),
        ", 0) + COALESCE(",
        x.cache_creation.as_str(),
        ", 0) + COALESCE(",
        x.cache_read.as_str(),
        ", 0)) AS total_tokens",
    ];
    proof {
        assert(text::views(parts@) =~= seq![
            "SELECT "@,
            CONVERSATION@,
            " AS conversation_id, COUNT(*) AS request_count, SUM(COALESCE("@,
            x.input@,
            ", 0)) AS input_tokens, SUM(COALESCE("@,
            x.output@,
            ", 0)) AS output_tokens, SUM(COALESCE("@,
            x.input@,
            ", 0) + COALESCE("@,
            x.output@,
            ", 0) + COALESCE("@,
            x.cache_creation@,
            ", 0) + COALESCE("@,
            x.cache_read@,
            ", 0)) AS total_tokens"@,
        ]);
    }
    text::concat(&parts)
}

/// Which spans are read for the conversations with the most tokens.
pub open spec fn top_conversations_guard_text(x: TokenExprs) -> Seq<char> {
    text::flat(
        seq![
            x.llm_span_guard@,
            " AND "@,
            CONVERSATION@,
            " IS NOT NULL"@,
        ],
    )
}

fn top_conversations_guard(x: &TokenExprs) -> (s: String)
    ensures
        s@ == top_conversations_guard_text(*x),
{
    let parts: Vec<&str> = vec![
        x.llm_span_guard.as_str(),
        " AND ",
        CONVERSATION,
        " IS NOT NULL",
    ];
    proof {
        assert(text::views(parts@) =~= seq![
            x.llm_span_guard@,
            " AND "@,
            CONVERSATION@,
            " IS NOT NULL"@,
        ]);
    }
    text::concat(&parts)
}

/// Reads the conversations with the most tokens.
pub open spec fn top_conversations_query(x: TokenExprs, window: Window, limit: usize) -> Query {
    limited(on_spans(top_conversations_columns_text(x), top_conversations_guard_text(x), window).plus(" GROUP BY conversation_id ORDER BY total_tokens DESC"@), limit)
}

/// The statement that reads the conversations with the most tokens.
pub fn query_top_conversations(x: &TokenExprs, window: Window, limit: usize) -> (s: Statement)
    ensures
        s@ == top_conversations_query(*x, window, limit),
{
    let mut s = begin_on_spans(top_conversations_columns(x).as_str(), top_conversations_guard(x).as_str(), window);
    s.add_text(" GROUP BY conversation_id ORDER BY total_tokens DESC");
    add_limit(&mut s, limit);
    s
}

/// What is read for the duration, the time to first token and the tokens of each call.
pub open spec fn latency_stats_columns_text(x: TokenExprs) -> Seq<char> {
    text::flat(
        seq![
            "SELECT "@,
            identity_text(x.model@, x.system@),
            " AS model, (end_time - start_time) AS duration_ns, "@,
            TTFT_COLUMNS@,
            ", "@,
            x.output@,
            " AS output_tokens, "@,
            x.input@,
            " AS input_tokens, "@,
            x.cache_creation@,
            " AS cache_creation_tokens, "@,
            x.cache_read@,
            " AS cache_read_tokens"@,
        ],
    )
}

fn latency_stats_columns(x: &TokenExprs) -> (s: String)
    ensures
        s@ == latency_stats_columns_text(*x),
{
    let identity = identity_expr(x.model.as_str(), x.system.as_str());
    let parts: Vec<&str> = vec![
        "SELECT ",
        identity.as_str(),
        " AS model, (end_time - start_time) AS duration_ns, ",
        TTFT_COLUMNS,
        ", ",
        x.output.as_str(),
        " AS output_tokens, ",
        x.input.as_str(),
        " AS input_tokens, ",
        x.cache_creation.as_str(),
        " AS cache_creation_tokens, ",
        x.cache_read.as_str(),
        " AS cache_read_tokens",
    ];
    proof {
        assert(text::views(parts@) =~= seq![
            "SELECT "@,
            identity_text(x.model@, x.system@),
            " AS model, (end_time - start_time) AS duration_ns, "@,
            TTFT_COLUMNS@,
            ", "@,
            x.output@,
            " AS output_tokens, "@,
            x.input@,
            " AS input_tokens, "@,
            x.cache_creation@,
            " AS cache_creation_tokens, "@,
            x.cache_read@,
            " AS cache_read_tokens"@,
        ]);
    }
    text::concat(&parts)
}

/// Reads the duration, the time to first token and the tokens of each call.
pub open spec fn latency_stats_query(x: TokenExprs, window: Window, model: Option<Seq<char>>) -> Query {
    for_model(on_spans(latency_stats_columns_text(x), x.request_span_guard@, window), x, model)
}

/// The statement that reads the duration, the time to first token and the tokens of each call.
pub fn query_latency_stats(x: &TokenExprs, window: Window, model: &Option<String>) -> (s: Statement)
    ensures
        s@ == latency_stats_query(*x, window, text::optional(*model)),
{
    let mut s = begin_on_spans(latency_stats_columns(x).as_str(), x.request_span_guard.as_str(), window);
    add_model(&mut s, x, model);
    s
}

/// What is read for the calls and the failed calls of each model.
pub open spec fn error_rate_columns_text(x: TokenExprs) -> Seq<char> {
    text::flat(
        seq![
            "SELECT "@,
            x.model@,
            " AS model, SUM(CASE WHEN status_code = 2 THEN 1 ELSE 0 END) AS errors, COUNT(*) AS total"@,
        ],
    )
}

fn error_rate_columns(x: &TokenExprs) -> (s: String)
    ensures
        s@ == error_rate_columns_text(*x),
{
    let parts: Vec<&str> = vec![
        "SELECT ",
        x.model.as_str(),
        " AS model, SUM(CASE WHEN status_code = 2 THEN 1 ELSE 0 END) AS errors, COUNT(*) AS total",
    ];
    proof {
        assert(text::views(parts@) =~= seq![
            "SELECT "@,
            x.model@,
            " AS model, SUM(CASE WHEN status_code = 2 THEN 1 ELSE 0 END) AS errors, COUNT(*) AS total"@,
        ]);
    }
    text::concat(&parts)
}

/// Reads the calls and the failed calls of each model.
pub open spec fn error_rate_query(x: TokenExprs, window: Window, model: Option<Seq<char>>) -> Query {
    for_model(on_spans(error_rate_columns_text(x), x.llm_span_guard@, window), x, model).plus(" GROUP BY model HAVING model IS NOT NULL ORDER BY errors DESC, total DESC"@)
}

/// The statement that reads the calls and the failed calls of each model.
pub fn query_error_rate(x: &TokenExprs, window: Window, model: &Option<String>) -> (s: Statement)
    ensures
        s@ == error_rate_query(*x, window, text::optional(*model)),
{
    let mut s = begin_on_spans(error_rate_columns(x).as_str(), x.llm_span_guard.as_str(), window);
    add_model(&mut s, x, model);
    s.add_text(" GROUP BY model HAVING model IS NOT NULL ORDER BY errors DESC, total DESC");
    s
}

/// Reads the attempts of each call.
pub open spec fn retry_stats_query(x: TokenExprs, window: Window) -> Query {
    on_spans("SELECT COALESCE(CAST(json_extract(attributes, '$.\"attempt\"') AS INTEGER), CAST(json_extract(attributes, '$.\"retry_count\"') AS INTEGER), CAST(json_extract(attributes, '$.\"gen_ai.request.attempt\"') AS INTEGER), 1) AS attempt"@, x.llm_span_guard@, window)
}

/// The statement that reads the attempts of each call.
pub fn query_retry_stats(x: &TokenExprs, window: Window) -> (s: Statement)
    ensures
        s@ == retry_stats_query(*x, window),
{
    let s = begin_on_spans("SELECT COALESCE(CAST(json_extract(attributes, '$.\"attempt\"') AS INTEGER), CAST(json_extract(attributes, '$.\"retry_count\"') AS INTEGER), CAST(json_extract(attributes, '$.\"gen_ai.request.attempt\"') AS INTEGER), 1) AS attempt", x.llm_span_guard.as_str(), window);
    s
}

/// What is read for the calls and the truncated calls of each model.
pub open spec fn truncation_rate_columns_text(x: TokenExprs) -> Seq<char> {
    text::flat(
        seq![
            "SELECT "@,
            x.model@,
            " AS model, COUNT(*) AS total, SUM(CASE WHEN "@,
            FINISH_REASON@,
            " IN ('max_tokens', 'length') THEN 1 ELSE 0 END) AS truncated"@,
        ],
    )
}

fn truncation_rate_columns(x: &TokenExprs) -> (s: String)
    ensures
        s@ == truncation_rate_columns_text(*x),
{
    let parts: Vec<&str> = vec![
        "SELECT ",
        x.model.as_str(),
        " AS model, COUNT(*) AS total, SUM(CASE WHEN ",
        FINISH_REASON,
        " IN ('max_tokens', 'length') THEN 1 ELSE 0 END) AS truncated",
    ];
    proof {
        assert(text::views(parts@) =~= seq![
            "SELECT "@,
            x.model@,
            " AS model, COUNT(*) AS total, SUM(CASE WHEN "@,
            FINISH_REASON@,
            " IN ('max_tokens', 'length') THEN 1 ELSE 0 END) AS truncated"@,
        ]);
    }
    text::concat(&parts)
}

/// How rows are put together for the calls and the truncated calls of each model.
pub open spec fn truncation_rate_grouping_text(x: TokenExprs) -> Seq<char> {
    text::flat(
        seq![
            " GROUP BY "@,
            x.model@,
            " ORDER BY total DESC"@,
        ],
    )
}

fn truncation_rate_grouping(x: &TokenExprs) -> (s: String)
    ensures
        s@ == truncation_rate_grouping_text(*x),
{
    let parts: Vec<&str> = vec![
        " GROUP BY ",
        x.model.as_str(),
        " ORDER BY total DESC",
    ];
    proof {
        assert(text::views(parts@) =~= seq![
            " GROUP BY "@,
            x.model@,
            " ORDER BY total DESC"@,
        ]);
    }
    text::concat(&parts)
}

/// Reads the calls and the truncated calls of each model.
pub open spec fn truncation_rate_query(x: TokenExprs, window: Window, model: Option<Seq<char>>) -> Query {
    for_model(on_spans(truncation_rate_columns_text(x), x.llm_span_guard@, window), x, model).plus(truncation_rate_grouping_text(x))
}

/// The statement that reads the calls and the truncated calls of each model.
pub fn query_truncation_rate(x: &TokenExprs, window: Window, model: &Option<String>) -> (s: Statement)
    ensures
        s@ == truncation_rate_query(*x, window, text::optional(*model)),
{
    let mut s = begin_on_spans(truncation_rate_columns(x).as_str(), x.llm_span_guard.as_str(), window);
    add_model(&mut s, x, model);
    s.add_text(truncation_rate_grouping(x).as_str());
    s
}

/// What is read for the input and the cached tokens of each model.
pub open spec fn cache_hit_rate_columns_text(x: TokenExprs) -> Seq<char> {
    text::flat(
        seq![
            "SELECT "@,
            x.model@,
            " AS model, SUM(COALESCE("@,
            x.input@,
            ", 0)) AS input_tokens, SUM(COALESCE("@,
            x.cache_read@,
            ", 0)) AS cache_read_tokens, SUM(COALESCE("@,
            x.cache_creation@,
            ", 0)) AS cache_creation_tokens"@,
        ],
    )
}

fn cache_hit_rate_columns(x: &TokenExprs) -> (s: String)
    ensures
        s@ == cache_hit_rate_columns_text(*x),
{
    let parts: Vec<&str> = vec![
        "SELECT ",
        x.model.as_str(),
        " AS model, SUM(COALESCE(",
        x.input.as_str(),
        ", 0)) AS input_tokens, SUM(COALESCE(",
        x.cache_read.as_str(),
        ", 0)) AS cache_read_tokens, SUM(COALESCE(",
        x.cache_creation.as_str(),
        ", 0)) AS cache_creation_tokens",
    ];
    proof {
        assert(text::views(parts@) =~= seq![
            "SELECT "@,
            x.model@,
            " AS model, SUM(COALESCE("@,
            x.input@,
            ", 0)) AS input_tokens, SUM(COALESCE("@,
            x.cache_read@,
            ", 0)) AS cache_read_tokens, SUM(COALESCE("@,
            x.cache_creation@,
            ", 0)) AS cache_creation_tokens"@,
        ]);
    }
    text::concat(&parts)
}

/// How rows are put together for the input and the cached tokens of each model.
pub open spec fn cache_hit_rate_grouping_text(x: TokenExprs) -> Seq<char> {
    text::flat(
        seq![
            " GROUP BY "@,
            x.model@,
            " ORDER BY cache_read_tokens DESC"@,
        ],
    )
}

fn cache_hit_rate_grouping(x: &TokenExprs) -> (s: String)
    ensures
        s@ == cache_hit_rate_grouping_text(*x),
{
    let parts: Vec<&str> = vec![
        " GROUP BY ",
        x.model.as_str(),
        " ORDER BY cache_read_tokens DESC",
    ];
    proof {
        assert(text::views(parts@) =~= seq![
            " GROUP BY "@,
            x.model@,
            " ORDER BY cache_read_tokens DESC"@,
        ]);
    }
    text::concat(&parts)
}

/// Reads the input and the cached tokens of each model.
pub open spec fn cache_hit_rate_query(x: TokenExprs, window: Window, model: Option<Seq<char>>) -> Query {
    for_model(on_spans(cache_hit_rate_columns_text(x), x.llm_span_guard@, window), x, model).plus(cache_hit_rate_grouping_text(x))
}

/// The statement that reads the input and the cached tokens of each model.
pub fn query_cache_hit_rate(x: &TokenExprs, window: Window, model: &Option<String>) -> (s: Statement)
    ensures
        s@ == cache_hit_rate_query(*x, window, text::optional(*model)),
{
    let mut s = begin_on_spans(cache_hit_rate_columns(x).as_str(), x.llm_span_guard.as_str(), window);
    add_model(&mut s, x, model);
    s.add_text(cache_hit_rate_grouping(x).as_str());
    s
}

/// Reads how often each temperature was asked for.
pub open spec fn temperatures_query(x: TokenExprs, window: Window) -> Query {
    on_spans("SELECT ROUND(CAST(json_extract(attributes, '$.\"gen_ai.request.temperature\"') AS REAL), 2) AS temperature, COUNT(*) AS cnt"@, x.llm_span_guard@, window).plus(" GROUP BY temperature ORDER BY cnt DESC"@)
}

/// The statement that reads how often each temperature was asked for.
pub fn query_temperatures(x: &TokenExprs, window: Window) -> (s: Statement)
    ensures
        s@ == temperatures_query(*x, window),
{
    let mut s = begin_on_spans("SELECT ROUND(CAST(json_extract(attributes, '$.\"gen_ai.request.temperature\"') AS REAL), 2) AS temperature, COUNT(*) AS cnt", x.llm_span_guard.as_str(), window);
    s.add_text(" GROUP BY temperature ORDER BY cnt DESC");
    s
}

/// Reads how often each limit on the output was asked for.
pub open spec fn max_tokens_query(x: TokenExprs, window: Window) -> Query {
    on_spans("SELECT CAST(json_extract(attributes, '$.\"gen_ai.request.max_tokens\"') AS INTEGER) AS max_tokens, COUNT(*) AS cnt"@, x.llm_span_guard@, window).plus(" GROUP BY max_tokens ORDER BY cnt DESC"@)
}

/// The statement that reads how often each limit on the output was asked for.
pub fn query_max_tokens(x: &TokenExprs, window: Window) -> (s: Statement)
    ensures
        s@ == max_tokens_query(*x, window),
{
    let mut s = begin_on_spans("SELECT CAST(json_extract(attributes, '$.\"gen_ai.request.max_tokens\"') AS INTEGER) AS max_tokens, COUNT(*) AS cnt", x.llm_span_guard.as_str(), window);
    s.add_text(" GROUP BY max_tokens ORDER BY cnt DESC");
    s
}

/// Which spans are read for the turns of each conversation.
pub open spec fn conversation_depth_guard_text(x: TokenExprs) -> Seq<char> {
    text::flat(
        seq![
            x.llm_span_guard@,
            " AND "@,
            CONVERSATION@,
            " IS NOT NULL"@,
        ],
    )
}

fn conversation_depth_guard(x: &TokenExprs) -> (s: String)
    ensures
        s@ == conversation_depth_guard_text(*x),
{
    let parts: Vec<&str> = vec![
        x.llm_span_guard.as_str(),
        " AND ",
        CONVERSATION,
        " IS NOT NULL",
    ];
    proof {
        assert(text::views(parts@) =~= seq![
            x.llm_span_guard@,
            " AND "@,
            CONVERSATION@,
            " IS NOT NULL"@,
        ]);
    }
    text::concat(&parts)
}

/// How rows are put together for the turns of each conversation.
pub open spec fn conversation_depth_grouping_text(x: TokenExprs) -> Seq<char> {
    text::flat(
        seq![
            " GROUP BY "@,
            CONVERSATION@,
        ],
    )
}

fn conversation_depth_grouping(x: &TokenExprs) -> (s: String)
    ensures
        s@ == conversation_depth_grouping_text(*x),
{
    let parts: Vec<&str> = vec![
        " GROUP BY ",
        CONVERSATION,
    ];
    proof {
        assert(text::views(parts@) =~= seq![
            " GROUP BY "@,
            CONVERSATION@,
        ]);
    }
    text::concat(&parts)
}

/// Reads the turns of each conversation.
pub open spec fn conversation_depth_query(x: TokenExprs, window: Window) -> Query {
    on_spans("SELECT COUNT(*) AS turns"@, conversation_depth_guard_text(x), window).plus(conversation_depth_grouping_text(x))
}

/// The statement that reads the turns of each conversation.
pub fn query_conversation_depth(x: &TokenExprs, window: Window) -> (s: Statement)
    ensures
        s@ == conversation_depth_query(*x, window),
{
    let mut s = begin_on_spans("SELECT COUNT(*) AS turns", conversation_depth_guard(x).as_str(), window);
    s.add_text(conversation_depth_grouping(x).as_str());
    s
}

/// What is read for the duration and the time to first token of each call that reports its input.
pub open spec fn latency_by_context_columns_text(x: TokenExprs) -> Seq<char> {
    text::flat(
        seq![
            "SELECT "@,
            x.model@,
            " AS model, COALESCE("@,
            x.input@,
            ", 0) AS input_tokens, (end_time - start_time) / 1000000 AS duration_ms, "@,
            TTFT_COLUMNS@,
        ],
    )
}

fn latency_by_context_columns(x: &TokenExprs) -> (s: String)
    ensures
        s@ == latency_by_context_columns_text(*x),
{
    let parts: Vec<&str> = vec![
        "SELECT ",
        x.model.as_str(),
        " AS model, COALESCE(",
        x.input.as_str(),
        ", 0) AS input_tokens, (end_time - start_time) / 1000000 AS duration_ms, ",
        TTFT_COLUMNS,
    ];
    proof {
        assert(text::views(parts@) =~= seq![
            "SELECT "@,
            x.model@,
            " AS model, COALESCE("@,
            x.input@,
            ", 0) AS input_tokens, (end_time - start_time) / 1000000 AS duration_ms, "@,
            TTFT_COLUMNS@,
        ]);
    }
    text::concat(&parts)
}

/// Which spans are read for the duration and the time to first token of each call that reports its input.
pub open spec fn latency_by_context_guard_text(x: TokenExprs) -> Seq<char> {
    text::flat(
        seq![
            x.llm_span_guard@,
            " AND ("@,
            x.input@,
            ") IS NOT NULL AND ("@,
            x.input@,
            ") > 0"@,
        ],
    )
}

fn latency_by_context_guard(x: &TokenExprs) -> (s: String)
    ensures
        s@ == latency_by_context_guard_text(*x),
{
    let parts: Vec<&str> = vec![
        x.llm_span_guard.as_str(),
        " AND (",
        x.input.as_str(),
        ") IS NOT NULL AND (",
        x.input.as_str(),
        ") > 0",
    ];
    proof {
        assert(text::views(parts@) =~= seq![
            x.llm_span_guard@,
            " AND ("@,
            x.input@,
            ") IS NOT NULL AND ("@,
            x.input@,
            ") > 0"@,
        ]);
    }
    text::concat(&parts)
}

/// Reads the duration and the time to first token of each call that reports its input.
pub open spec fn latency_by_context_query(x: TokenExprs, window: Window, model: Option<Seq<char>>) -> Query {
    for_model(on_spans(latency_by_context_columns_text(x), latency_by_context_guard_text(x), window), x, model)
}

/// The statement that reads the duration and the time to first token of each call that reports its input.
pub fn query_latency_by_context(x: &TokenExprs, window: Window, model: &Option<String>) -> (s: Statement)
    ensures
        s@ == latency_by_context_query(*x, window, text::optional(*model)),
{
    let mut s = begin_on_spans(latency_by_context_columns(x).as_str(), latency_by_context_guard(x).as_str(), window);
    add_model(&mut s, x, model);
    s
}

/// What is read for the pairs of the model that was asked for and the one that answered.
pub open spec fn model_drift_columns_text(x: TokenExprs) -> Seq<char> {
    text::flat(
        seq![
            "SELECT "@,
            x.request_model@,
            " AS request_model, "@,
            x.response_model@,
            " AS response_model, COUNT(*) AS count"@,
        ],
    )
}

fn model_drift_columns(x: &TokenExprs) -> (s: String)
    ensures
        s@ == model_drift_columns_text(*x),
{
    let parts: Vec<&str> = vec![
        "SELECT ",
        x.request_model.as_str(),
        " AS request_model, ",
        x.response_model.as_str(),
        " AS response_model, COUNT(*) AS count",
    ];
    proof {
        assert(text::views(parts@) =~= seq![
            "SELECT "@,
            x.request_model@,
            " AS request_model, "@,
            x.response_model@,
            " AS response_model, COUNT(*) AS count"@,
        ]);
    }
    text::concat(&parts)
}

/// Reads the pairs of the model that was asked for and the one that answered.
pub open spec fn model_drift_query(x: TokenExprs, window: Window) -> Query {
    on_spans(model_drift_columns_text(x), x.llm_span_guard@, window).plus(" GROUP BY request_model, response_model HAVING request_model IS NOT NULL OR response_model IS NOT NULL ORDER BY count DESC"@)
}

/// The statement that reads the pairs of the model that was asked for and the one that answered.
pub fn query_model_drift(x: &TokenExprs, window: Window) -> (s: Statement)
    ensures
        s@ == model_drift_query(*x, window),
{
    let mut s = begin_on_spans(model_drift_columns(x).as_str(), x.llm_span_guard.as_str(), window);
    s.add_text(" GROUP BY request_model, response_model HAVING request_model IS NOT NULL OR response_model IS NOT NULL ORDER BY count DESC");
    s
}

/// Reads how often each stop reason occurs.
pub open spec fn stop_reasons_query(x: TokenExprs, window: Window) -> Query {
    on_spans("SELECT COALESCE(json_extract(attributes, '$.stop_reason'), json_extract(attributes, '$.\"gen_ai.response.finish_reason\"'), '(none)') AS reason, COUNT(*) AS cnt"@, x.llm_span_guard@, window).plus(" GROUP BY reason ORDER BY cnt DESC"@)
}

/// The statement that reads how often each stop reason occurs.
pub fn query_stop_reasons(x: &TokenExprs, window: Window) -> (s: Statement)
    ensures
        s@ == stop_reasons_query(*x, window),
{
    let mut s = begin_on_spans("SELECT COALESCE(json_extract(attributes, '$.stop_reason'), json_extract(attributes, '$.\"gen_ai.response.finish_reason\"'), '(none)') AS reason, COUNT(*) AS cnt", x.llm_span_guard.as_str(), window);
    s.add_text(" GROUP BY reason ORDER BY cnt DESC");
    s
}

/// What is read for the calls and the tokens of each kind of context.
pub open spec fn context_type_split_columns_text(x: TokenExprs) -> Seq<char> {
    text::flat(
        seq![
            "SELECT COALESCE(json_extract(attributes, '$.\"llm_request.context\"'), '(unknown)') AS context, COUNT(*) AS calls, COALESCE(SUM("@,
            x.input@,
            "), 0) AS input_tokens, COALESCE(SUM("@,
            x.output@,
            "), 0) AS output_tokens, AVG((end_time - start_time) / 1000000.0) AS avg_ms"@,
        ],
    )
}

fn context_type_split_columns(x: &TokenExprs) -> (s: String)
    ensures
        s@ == context_type_split_columns_text(*x),
{
    let parts: Vec<&str> = vec![
        "SELECT COALESCE(json_extract(attributes, '$.\"llm_request.context\"'), '(unknown)') AS context, COUNT(*) AS calls, COALESCE(SUM(",
        x.input.as_str(),
        "), 0) AS input_tokens, COALESCE(SUM(",
        x.output.as_str(),
        "), 0) AS output_tokens, AVG((end_time - start_time) / 1000000.0) AS avg_ms",
    ];
    proof {
        assert(text::views(parts@) =~= seq![
            "SELECT COALESCE(json_extract(attributes, '$.\"llm_request.context\"'), '(unknown)') AS context, COUNT(*) AS calls, COALESCE(SUM("@,
            x.input@,
            "), 0) AS input_tokens, COALESCE(SUM("@,
            x.output@,
            "), 0) AS output_tokens, AVG((end_time - start_time) / 1000000.0) AS avg_ms"@,
        ]);
    }
    text::concat(&parts)
}

/// Reads the calls and the tokens of each kind of context.
pub open spec fn context_type_split_query(x: TokenExprs, window: Window) -> Query {
    on_spans(context_type_split_columns_text(x), x.llm_span_guard@, window).plus(" GROUP BY context ORDER BY calls DESC"@)
}

/// The statement that reads the calls and the tokens of each kind of context.
pub fn query_context_type_split(x: &TokenExprs, window: Window) -> (s: Statement)
    ensures
        s@ == context_type_split_query(*x, window),
{
    let mut s = begin_on_spans(context_type_split_columns(x).as_str(), x.llm_span_guard.as_str(), window);
    s.add_text(" GROUP BY context ORDER BY calls DESC");
    s
}

/// The statements behind the token usage.
pub struct TokenUsageStatements {
    pub summary: Statement,
    pub by_model: Statement,
    pub by_system: Statement,
}

/// The statements that read the tokens of all calls, of each model and of each system.
pub fn query_token_usage(x: &TokenExprs, window: Window, model: &Option<String>, by: ModelLabel) -> (r:
    TokenUsageStatements)
    ensures
        r.summary@ == token_summary_query(*x, window, text::optional(*model)),
        r.by_model@ == model_usage_query(*x, window, text::optional(*model), by),
        r.by_system@ == system_usage_query(*x, window, text::optional(*model)),
{
    TokenUsageStatements {
        summary: query_token_summary(x, window, model),
        by_model: query_model_usage(x, window, model, by),
        by_system: query_system_usage(x, window, model),
    }
}

/// The statements behind the settings of requests.
pub struct RequestParamStatements {
    pub temperatures: Statement,
    pub max_tokens: Statement,
}

/// The statements that read the settings of requests.
pub fn query_request_param_profile(x: &TokenExprs, window: Window) -> (r: RequestParamStatements)
    ensures
        r.temperatures@ == temperatures_query(*x, window),
        r.max_tokens@ == max_tokens_query(*x, window),
{
    RequestParamStatements {
        temperatures: query_temperatures(x, window),
        max_tokens: query_max_tokens(x, window),
    }
}

} // verus!
